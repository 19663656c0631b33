//! Kernel translation tables: 4 KiB pages and 2 MiB blocks mapped through
//! kernel table descriptors.
use vstd::prelude::*;
use crate::frame_alloc::TOTAL_FRAMES;
use crate::phys_mem::RAM_WORDS;
use crate::pt_walk::{
    agree_on, frame_used, frame_index, is_table_desc, leaf_entry, walk, walk_frames, lemma_alloc_fresh,
    lemma_frame_words, lemma_frames_disjoint, lemma_walk_agree, lemma_word_in_frame,
};
use crate::mm::{
    alloc_zeroed_spec, lemma_table_desc, lemma_word_index_offset, lemma_zero_invalid, table_desc, word_index,
    BLOCK_SIZE, MemoryManager, MmView, PTE_AF, PTE_BLOCK, PTE_PAGE, PTE_VALID, block_base, block_desc, desc_addr, entry_at, goa_spec, index_at, leaf_desc, make_entry, opt_int, pte_table, pte_valid, table_in_ram, va_index, write_word,
};

verus! {

/// Walk from table `t` at `from` down to level `to`, following table descriptors
/// and installing fresh zeroed tables for invalid entries, as `get_or_alloc_table_with` does.
pub open spec fn descend(v: MmView, t: int, vaddr: int, from: int, to: int, user: bool) -> (MmView, Option<int>)
    decreases to - from,
{
    if from >= to {
        (v, Some(t))
    } else {
        let (v1, r) = goa_spec(v, t, va_index(vaddr, from), user);
        match r {
            None => (v1, None),
            Some(t1) => descend(v1, t1, vaddr, from + 1, to, user),
        }
    }
}

/// Every table that `descend` visits (and the one it ends at) is a frame inside RAM.
pub open spec fn descend_ok(v: MmView, t: int, vaddr: int, from: int, to: int, user: bool) -> bool
    decreases to - from,
{
    &&& table_in_ram(t)
    &&& from < to ==> {
        let (v1, r) = goa_spec(v, t, va_index(vaddr, from), user);
        r matches Some(t1) ==> descend_ok(v1, t1, vaddr, from + 1, to, user)
    }
}

/// Effect of `map_page(table, vaddr, paddr, attr)`.
pub open spec fn map_page_spec(v: MmView, t: int, vaddr: int, paddr: int, attr: u64) -> (MmView, bool) {
    let (v3, r) = descend(v, t, vaddr, 0, 3, false);
    match r {
        None => (v3, false),
        Some(l3) => (MmView {
            mem: write_word(v3.mem, l3 + va_index(vaddr, 3) * 8, leaf_desc(paddr, PTE_VALID | PTE_PAGE | attr)),
            ..v3
        }, true),
    }
}

/// Effect of `map_block_2m(table, vaddr, paddr, attr)`: an entry that is already
/// valid at level 2 is left as it is.
pub open spec fn map_block_spec(v: MmView, t: int, vaddr: int, paddr: int, attr: u64) -> (MmView, bool) {
    let (v2, r) = descend(v, t, vaddr, 0, 2, false);
    match r {
        None => (v2, false),
        Some(l2) => {
            let e = entry_at(v2.mem, l2, va_index(vaddr, 2));
            if pte_valid(e) {
                (v2, true)
            } else {
                (MmView { mem: write_word(v2.mem, l2 + va_index(vaddr, 2) * 8, block_desc(paddr, attr)), ..v2 }, true)
            }
        },
    }
}

impl MemoryManager {
    /// One step of a walk: the table descriptor of entry `level` of `vaddr`.
    fn step(&mut self, table: usize, vaddr: usize, level: usize, to: usize, user: bool) -> (r: Option<usize>)
        requires
            old(self).wf(),
            level < to <= 3,
            descend_ok(old(self)@, table as int, vaddr as int, level as int, to as int, user),
        ensures
            final(self).wf(),
            (final(self)@, opt_int(r)) == goa_spec(old(self)@, table as int, va_index(vaddr as int, level as int), user),
            r matches Some(t1) ==> descend_ok(final(self)@, t1 as int, vaddr as int, level + 1, to as int, user),
            descend(old(self)@, table as int, vaddr as int, level as int, to as int, user) == (match r {
                None => (final(self)@, None),
                Some(t1) => descend(final(self)@, t1 as int, vaddr as int, level + 1, to as int, user),
            }),
    {
        let idx = index_at(vaddr, level);
        proof {
            let e = entry_at(old(self)@.mem, table as int, idx as int);
            if pte_valid(e) && pte_table(e) {
                let (v1, r1) = goa_spec(old(self)@, table as int, idx as int, user);
                assert(r1 == Some(desc_addr(e)));
                assert(descend_ok(v1, desc_addr(e), vaddr as int, level + 1, to as int, user));
                assert(table_in_ram(desc_addr(e)));
            }
        }
        self.get_or_alloc_table_with(table, idx, user)
    }

    /// Maps the 4 KiB page at `vaddr` to `paddr` with `attr` in the tree rooted at
    /// `table`, creating missing kernel tables. `false` when a block is in the way or
    /// no frame is left.
    pub fn map_page(&mut self, table: usize, vaddr: usize, paddr: usize, attr: u64) -> (r: bool)
        requires
            old(self).wf(),
            descend_ok(old(self)@, table as int, vaddr as int, 0, 3, false),
        ensures
            final(self).wf(),
            (final(self)@, r) == map_page_spec(old(self)@, table as int, vaddr as int, paddr as int, attr),
    {
        let l1 = match self.step(table, vaddr, 0, 3, false) {
            Some(t) => t,
            None => {
                return false;
            },
        };
        let l2 = match self.step(l1, vaddr, 1, 3, false) {
            Some(t) => t,
            None => {
                return false;
            },
        };
        let l3 = match self.step(l2, vaddr, 2, 3, false) {
            Some(t) => t,
            None => {
                return false;
            },
        };
        let idx3 = index_at(vaddr, 3);
        let pte = make_entry(paddr, PTE_VALID | PTE_PAGE | attr);
        self.write_u64(l3 + idx3 * 8, pte);
        true
    }

    /// Maps the 2 MiB block holding `vaddr` to the block holding `paddr` with `attr`.
    /// An entry that is already valid at level 2 is kept (and counts as success).
    pub fn map_block_2m(&mut self, table: usize, vaddr: usize, paddr: usize, attr: u64) -> (r: bool)
        requires
            old(self).wf(),
            descend_ok(old(self)@, table as int, vaddr as int, 0, 2, false),
        ensures
            final(self).wf(),
            (final(self)@, r) == map_block_spec(old(self)@, table as int, vaddr as int, paddr as int, attr),
    {
        let l1 = match self.step(table, vaddr, 0, 2, false) {
            Some(t) => t,
            None => {
                return false;
            },
        };
        let l2 = match self.step(l1, vaddr, 1, 2, false) {
            Some(t) => t,
            None => {
                return false;
            },
        };
        let ghost v2 = self@;
        assert(descend(v2, l2 as int, vaddr as int, 2, 2, false) == (v2, Some(l2 as int)));
        assert(descend(old(self)@, table as int, vaddr as int, 0, 2, false) == (v2, Some(l2 as int)));
        assert(table_in_ram(l2 as int));
        let idx2 = index_at(vaddr, 2);
        let entry_addr = l2 + idx2 * 8;
        let entry = self.read_u64(entry_addr);
        if entry & PTE_VALID != 0 {
            return true;
        }
        let p = paddr as u64;
        let block_entry = ((p >> 21) << 21) | PTE_VALID | PTE_BLOCK | PTE_AF | attr;
        assert((p >> 21) << 21 == p - p % 0x20_0000) by (bit_vector);
        self.write_u64(entry_addr, block_entry);
        true
    }
}


/// Effect of mapping the 2 MiB blocks from `va` (block aligned) below `end`,
/// with `pa` advancing in step; stops at the first failing block.
pub open spec fn map_range_spec(v: MmView, t: int, va: int, pa: int, end: int, attr: u64) -> (MmView, bool)
    decreases end - va + 0x20_0000,
{
    if va >= end {
        (v, true)
    } else {
        let (v1, ok) = map_block_spec(v, t, va, pa, attr);
        if !ok {
            (v1, false)
        } else {
            map_range_spec(v1, t, va + BLOCK_SIZE, pa + BLOCK_SIZE, end, attr)
        }
    }
}

/// Each block mapping of [`map_range_spec`] walks tables inside RAM and its
/// addresses stay within `usize`.
pub open spec fn map_range_ok(v: MmView, t: int, va: int, pa: int, end: int, attr: u64) -> bool
    decreases end - va + 0x20_0000,
{
    va < end ==> {
        &&& descend_ok(v, t, va, 0, 2, false)
        &&& va + BLOCK_SIZE <= usize::MAX
        &&& pa + BLOCK_SIZE <= usize::MAX
        &&& {
            let (v1, ok) = map_block_spec(v, t, va, pa, attr);
            ok ==> map_range_ok(v1, t, va + BLOCK_SIZE, pa + BLOCK_SIZE, end, attr)
        }
    }
}

impl MemoryManager {
    /// Maps `[vaddr_start, vaddr_start + size)` with 2 MiB blocks onto the blocks
    /// from `paddr_start`, both rounded down to a block boundary. `false` at the
    /// first block that cannot be mapped.
    pub fn map_range_2m(&mut self, table: usize, vaddr_start: usize, paddr_start: usize, size: usize, attr: u64) -> (r: bool)
        requires
            old(self).wf(),
            vaddr_start + size <= usize::MAX,
            map_range_ok(old(self)@, table as int, block_base(vaddr_start as int), block_base(paddr_start as int),
                vaddr_start + size, attr),
        ensures
            final(self).wf(),
            (final(self)@, r) == map_range_spec(old(self)@, table as int, block_base(vaddr_start as int),
                block_base(paddr_start as int), vaddr_start + size, attr),
    {
        let mut vaddr = vaddr_start / BLOCK_SIZE * BLOCK_SIZE;
        let mut paddr = paddr_start / BLOCK_SIZE * BLOCK_SIZE;
        let end = vaddr_start + size;
        while vaddr < end
            invariant
                self.wf(),
                map_range_ok(self@, table as int, vaddr as int, paddr as int, end as int, attr),
                map_range_spec(self@, table as int, vaddr as int, paddr as int, end as int, attr)
                    == map_range_spec(old(self)@, table as int, block_base(vaddr_start as int),
                        block_base(paddr_start as int), vaddr_start + size, attr),
            decreases end - vaddr + BLOCK_SIZE,
        {
            if !self.map_block_2m(table, vaddr, paddr, attr) {
                return false;
            }
            vaddr = vaddr + BLOCK_SIZE;
            paddr = paddr + BLOCK_SIZE;
        }
        true
    }
}



/// The tables on the path of `vaddr` below `t` are allocated frames, pairwise
/// distinct and distinct from the tables in `above`.
pub open spec fn fresh_path(v: MmView, t: int, vaddr: int, from: int, to: int, above: Set<int>) -> bool
    decreases to - from,
{
    &&& table_in_ram(t)
    &&& frame_used(v, t)
    &&& !above.contains(t)
    &&& forall|s: int| #[trigger] above.contains(s) ==> table_in_ram(s) && frame_used(v, s)
    &&& from < to ==> {
        let e = entry_at(v.mem, t, va_index(vaddr, from));
        is_table_desc(e) ==> fresh_path(v, desc_addr(e), vaddr, from + 1, to, above.insert(t))
    }
}

/// What a `descend` over a fresh path guarantees: the tables above are left as
/// they were, allocated frames stay allocated, and a walk of the new memory
/// reaches the table where `descend` ended, which none of the walked tables is.
pub proof fn lemma_descend(v: MmView, t: int, vaddr: int, from: int, to: int, user: bool, above: Set<int>)
    requires
        v.used.len() == TOTAL_FRAMES,
        v.next <= TOTAL_FRAMES,
        v.mem.len() == RAM_WORDS,
        0 <= from,
        to <= 4,
        fresh_path(v, t, vaddr, from, to, above),
    ensures
        ({
            let (v2, r) = descend(v, t, vaddr, from, to, user);
            &&& v2.used.len() == TOTAL_FRAMES
            &&& v2.next <= TOTAL_FRAMES
            &&& v2.mem.len() == RAM_WORDS
            &&& v2.kernel_table == v.kernel_table
            &&& forall|i: int| 0 <= i < TOTAL_FRAMES && #[trigger] v.used[i] ==> v2.used[i]
            &&& forall|s: int| #[trigger] above.contains(s) ==> agree_on(v.mem, v2.mem, s)
            &&& r matches Some(x) ==> {
                &&& walk(v2.mem, t, vaddr, from, to) == Some(x)
                &&& table_in_ram(x)
                &&& frame_used(v2, x)
                &&& !above.contains(x)
                &&& forall|s: int| #[trigger] walk_frames(v2.mem, t, vaddr, from, to).contains(s) ==>
                    table_in_ram(s) && s != x && !above.contains(s)
            }
        }),
    decreases to - from,
{
    if from >= to {
        return;
    }
    let i = va_index(vaddr, from);
    assert(0 <= i < 512);
    lemma_word_index_offset(t, i);
    let e = entry_at(v.mem, t, i);
    let above2 = above.insert(t);
    if pte_valid(e) {
        if pte_table(e) {
            let t1 = desc_addr(e);
            lemma_descend(v, t1, vaddr, from + 1, to, user, above2);
            let (v2, r) = descend(v, t1, vaddr, from + 1, to, user);
            assert(above2.contains(t));
            assert(agree_on(v.mem, v2.mem, t));
            assert forall|s: int| #[trigger] above.contains(s) implies agree_on(v.mem, v2.mem, s) by {
                assert(above2.contains(s));
            }
            assert(v.mem[word_index(t) + i] == v2.mem[word_index(t) + i]);
            assert(entry_at(v2.mem, t, i) == e);
            if let Some(x) = r {
                assert forall|s: int| #[trigger] walk_frames(v2.mem, t, vaddr, from, to).contains(s) implies
                    table_in_ram(s) && s != x && !above.contains(s) by {
                    if s != t {
                        assert(walk_frames(v2.mem, t1, vaddr, from + 1, to).contains(s));
                    }
                }
            }
        }
        return;
    }
    lemma_alloc_fresh(v);
    let (v1, f) = alloc_zeroed_spec(v);
    if f is None {
        return;
    }
    let f = f->0;
    lemma_table_desc(user, f);
    lemma_frame_words(f);
    lemma_frame_words(t);
    let d = table_desc(user, f);
    let v1w = MmView { mem: write_word(v1.mem, t + i * 8, d), ..v1 };
    assert(goa_spec(v, t, i, user) == (v1w, Some(f)));
    // The fresh table differs from every allocated one.
    assert forall|s: int| #[trigger] above2.contains(s) implies s != f && table_in_ram(s) && frame_used(v1w, s) by {
        if s == f {
            assert(frame_used(v, s));
        }
    }
    // The fresh table reads as zero: its entries are not table descriptors.
    if from + 1 < to {
        let j = va_index(vaddr, from + 1);
        assert(0 <= j < 512);
        lemma_word_index_offset(f, j);
        lemma_word_in_frame(f, j);
        lemma_frames_disjoint(t, f, i, j);
        assert(entry_at(v1w.mem, f, j) == 0);
        lemma_zero_invalid();
    }
    assert(fresh_path(v1w, f, vaddr, from + 1, to, above2));
    lemma_descend(v1w, f, vaddr, from + 1, to, user, above2);
    let (v2, r) = descend(v1w, f, vaddr, from + 1, to, user);
    assert forall|s: int| #[trigger] above.contains(s) implies agree_on(v.mem, v2.mem, s) by {
        assert(above2.contains(s));
        assert(agree_on(v1w.mem, v2.mem, s));
        lemma_frame_words(s);
        assert forall|k: int| 0 <= k < 512 implies #[trigger] v.mem[word_index(s) + k] == v1w.mem[word_index(s) + k] by {
            lemma_word_in_frame(s, k);
            lemma_frames_disjoint(s, t, k, i);
            assert(frame_index(s) != frame_index(f)) by {
                if frame_index(s) == frame_index(f) {
                    lemma_frame_words(f);
                }
            }
        }
    }
    assert(above2.contains(t));
    assert(agree_on(v1w.mem, v2.mem, t));
    assert(v1w.mem[word_index(t) + i] == v2.mem[word_index(t) + i]);
    assert(entry_at(v2.mem, t, i) == d);
    if let Some(x) = r {
        assert forall|s: int| #[trigger] walk_frames(v2.mem, t, vaddr, from, to).contains(s) implies
            table_in_ram(s) && s != x && !above.contains(s) by {
            if s != t {
                assert(walk_frames(v2.mem, f, vaddr, from + 1, to).contains(s));
            }
        }
    }
}

/// Mapping a page makes the walk for `vaddr` end at a level-3 entry that maps
/// `paddr` with `attr`, as long as the tables on the way are distinct allocated frames.
pub proof fn law_map_page_maps(v: MmView, t: int, vaddr: int, paddr: int, attr: u64)
    requires
        v.used.len() == TOTAL_FRAMES,
        v.next <= TOTAL_FRAMES,
        v.mem.len() == RAM_WORDS,
        fresh_path(v, t, vaddr, 0, 3, Set::empty()),
    ensures
        ({
            let (v1, ok) = map_page_spec(v, t, vaddr, paddr, attr);
            ok ==> leaf_entry(v1.mem, t, vaddr) == Some(leaf_desc(paddr, PTE_VALID | PTE_PAGE | attr))
        }),
{
    lemma_descend(v, t, vaddr, 0, 3, false, Set::empty());
    let (v3, r) = descend(v, t, vaddr, 0, 3, false);
    if let Some(l3) = r {
        let i3 = va_index(vaddr, 3);
        assert(0 <= i3 < 512);
        lemma_word_index_offset(l3, i3);
        let (v1, ok) = map_page_spec(v, t, vaddr, paddr, attr);
        assert forall|s: int| #[trigger] walk_frames(v3.mem, t, vaddr, 0, 3).contains(s) implies
            table_in_ram(s) && agree_on(v3.mem, v1.mem, s) by {
            assert forall|k: int| 0 <= k < 512 implies #[trigger] v3.mem[word_index(s) + k] == v1.mem[word_index(s) + k] by {
                lemma_frames_disjoint(s, l3, k, i3);
            }
        }
        lemma_walk_agree(v3.mem, v1.mem, t, vaddr, 0, 3);
    }
}

/// Mapping a block makes the walk for `vaddr` reach, at level 2, the new block
/// descriptor for `paddr` with `attr`, or the valid entry that was already in its
/// place, as long as the tables on the way are distinct allocated frames.
pub proof fn law_map_block_maps(v: MmView, t: int, vaddr: int, paddr: int, attr: u64)
    requires
        v.used.len() == TOTAL_FRAMES,
        v.next <= TOTAL_FRAMES,
        v.mem.len() == RAM_WORDS,
        fresh_path(v, t, vaddr, 0, 2, Set::empty()),
    ensures
        ({
            let (v1, ok) = map_block_spec(v, t, vaddr, paddr, attr);
            let (v2, r) = descend(v, t, vaddr, 0, 2, false);
            ok ==> {
                &&& r matches Some(l2)
                &&& walk(v1.mem, t, vaddr, 0, 2) == Some(l2)
                &&& entry_at(v1.mem, l2, va_index(vaddr, 2)) == (if pte_valid(entry_at(v2.mem, l2, va_index(vaddr, 2))) {
                    entry_at(v2.mem, l2, va_index(vaddr, 2))
                } else {
                    block_desc(paddr, attr)
                })
            }
        }),
{
    lemma_descend(v, t, vaddr, 0, 2, false, Set::empty());
    let (v2, r) = descend(v, t, vaddr, 0, 2, false);
    if let Some(l2) = r {
        let i2 = va_index(vaddr, 2);
        assert(0 <= i2 < 512);
        lemma_word_index_offset(l2, i2);
        let (v1, ok) = map_block_spec(v, t, vaddr, paddr, attr);
        assert forall|s: int| #[trigger] walk_frames(v2.mem, t, vaddr, 0, 2).contains(s) implies
            table_in_ram(s) && agree_on(v2.mem, v1.mem, s) by {
            assert forall|k: int| 0 <= k < 512 implies #[trigger] v2.mem[word_index(s) + k] == v1.mem[word_index(s) + k] by {
                lemma_frames_disjoint(s, l2, k, i2);
            }
        }
        lemma_walk_agree(v2.mem, v1.mem, t, vaddr, 0, 2);
    }
}

} // verus!
