//! The kernel's identity map, built at boot: RAM as normal memory, the low
//! MMIO window as device memory in 2 MiB blocks, and the GIC window in 4 KiB
//! pages.
//!
//! Building it calls the table walkers many times; each call needs the tables
//! it walks to lie in RAM. [`tree_inv`] is what makes that hold throughout:
//! every table reachable from the root sits in an allocated frame and has one
//! level, and its table descriptors name tables of the next level.
use vstd::prelude::*;
use crate::frame_alloc::{RAM_START, TOTAL_FRAMES};
use crate::phys_mem::RAM_WORDS;
use crate::pt_walk::{
    frame_used, is_table_desc, lemma_alloc_fresh, lemma_frame_words, lemma_frames_disjoint,
    lemma_word_in_frame,
};
use crate::mm::{
    alloc_zeroed_spec, block_base, block_desc, desc_addr, entry_at, goa_spec, lemma_table_desc,
    lemma_word_index_offset, lemma_zero_invalid, leaf_desc, table_desc, table_in_ram, va_index, write_word, MemoryManager, MmView, ATTR_DEVICE, ATTR_NORMAL, BLOCK_SIZE, PTE_AP_RW_EL1, PTE_PAGE, PTE_PXN,
    PTE_SH_IS, PTE_SH_NONE, PTE_UXN, PTE_VALID,
};
use crate::pt_kernel::{descend, descend_ok, map_block_spec, map_page_spec, map_range_ok, map_range_spec};

verus! {

/// Attributes of kernel RAM: normal memory, EL1 read/write, inner shareable, EL0 execute-never.
pub const KERNEL_RAM_ATTR: u64 = ATTR_NORMAL | PTE_AP_RW_EL1 | PTE_SH_IS | PTE_UXN;
/// Attributes of MMIO: device memory, EL1 read/write, non-shareable, never executable.
pub const KERNEL_DEVICE_ATTR: u64 = ATTR_DEVICE | PTE_AP_RW_EL1 | PTE_SH_NONE | PTE_UXN | PTE_PXN;

/// Size of the RAM window mapped at boot (128 MiB).
pub const KERNEL_RAM_MAP_SIZE: usize = 0x800_0000;
/// End of the first MMIO window (below the GIC).
pub const LOW_DEVICE_END: usize = 0x0800_0000;
/// The GIC window, mapped with 4 KiB pages: `[GIC_MAP_START, GIC_MAP_START + 512 pages)`.
pub const GIC_MAP_START: usize = 0x0800_0000;
/// Number of 4 KiB pages in the GIC window.
pub const GIC_MAP_PAGES: usize = 512;
/// Start of the second MMIO window (the PL011 lives there), which ends at RAM.
pub const HIGH_DEVICE_START: usize = 0x0820_0000;

/// How building the kernel map ended.
#[derive(Clone, Copy, PartialEq, Eq, Debug, Structural)]
pub enum KernelMapOutcome {
    /// No frame was left for the root table.
    NoRootFrame,
    /// The 2 MiB range starting at `vaddr` could not be mapped; nothing after it was tried.
    RangeFailed { vaddr: usize },
    /// Every range is mapped under `root`; of the GIC pages, the first `gic_pages`
    /// are mapped (all of them unless one failed, which ended that loop).
    Mapped { root: usize, gic_pages: usize },
}

/// Effect of mapping GIC pages `i..GIC_MAP_PAGES` one by one; stops at the first
/// page that fails and gives how many were mapped.
pub open spec fn gic_pages_spec(v: MmView, root: int, i: int) -> (MmView, int)
    decreases GIC_MAP_PAGES - i,
{
    if i >= GIC_MAP_PAGES {
        (v, GIC_MAP_PAGES as int)
    } else {
        let va = GIC_MAP_START + i * 4096;
        let (v1, ok) = map_page_spec(v, root, va, va, KERNEL_DEVICE_ATTR);
        if !ok {
            (v1, i)
        } else {
            gic_pages_spec(v1, root, i + 1)
        }
    }
}

/// Effect of building the kernel map: a fresh root (recorded as the kernel
/// table), then RAM, the low MMIO window, the GIC pages and the high MMIO window.
pub open spec fn kernel_map_spec(v: MmView) -> (MmView, KernelMapOutcome) {
    let (v1, r) = alloc_zeroed_spec(v);
    match r {
        None => (v1, KernelMapOutcome::NoRootFrame),
        Some(root) => {
            let v1k = MmView { kernel_table: root as usize, ..v1 };
            let (v2, ok2) = map_range_spec(v1k, root, RAM_START as int, RAM_START as int,
                RAM_START + KERNEL_RAM_MAP_SIZE, KERNEL_RAM_ATTR);
            if !ok2 {
                (v2, KernelMapOutcome::RangeFailed { vaddr: RAM_START })
            } else {
                let (v3, ok3) = map_range_spec(v2, root, 0, 0, LOW_DEVICE_END as int, KERNEL_DEVICE_ATTR);
                if !ok3 {
                    (v3, KernelMapOutcome::RangeFailed { vaddr: 0 })
                } else {
                    let (v4, n) = gic_pages_spec(v3, root, 0);
                    let (v5, ok5) = map_range_spec(v4, root, HIGH_DEVICE_START as int, HIGH_DEVICE_START as int,
                        RAM_START as int, KERNEL_DEVICE_ATTR);
                    if !ok5 {
                        (v5, KernelMapOutcome::RangeFailed { vaddr: HIGH_DEVICE_START })
                    } else {
                        (v5, KernelMapOutcome::Mapped { root: root as usize, gic_pages: n as usize })
                    }
                }
            }
        },
    }
}

/// The tables in `lvl` lie in allocated frames of RAM, each at one level from 0
/// to 3; at levels 0 to 2 every table descriptor names a table of `lvl` one level down.
pub open spec fn tree_inv(v: MmView, lvl: Map<int, int>) -> bool {
    &&& v.used.len() == TOTAL_FRAMES
    &&& v.next <= TOTAL_FRAMES
    &&& v.mem.len() == RAM_WORDS
    &&& forall|t: int| #[trigger] lvl.contains_key(t) ==> table_in_ram(t) && frame_used(v, t) && 0 <= lvl[t] <= 3
    &&& forall|t: int, i: int|
        #![trigger lvl.contains_key(t), entry_at(v.mem, t, i)]
        lvl.contains_key(t) && 0 <= i < 512 && lvl[t] < 3 && is_table_desc(entry_at(v.mem, t, i)) ==> {
            &&& lvl.contains_key(desc_addr(entry_at(v.mem, t, i)))
            &&& lvl[desc_addr(entry_at(v.mem, t, i))] == lvl[t] + 1
        }
}

/// Allocating a frame keeps the tree: the new frame is none of its tables and reads as zero.
proof fn lemma_inv_alloc(v: MmView, lvl: Map<int, int>)
    requires
        tree_inv(v, lvl),
    ensures
        ({
            let (v1, r) = alloc_zeroed_spec(v);
            &&& tree_inv(v1, lvl)
            &&& v1.kernel_table == v.kernel_table
            &&& r matches Some(f) ==> {
                &&& table_in_ram(f)
                &&& frame_used(v1, f)
                &&& !lvl.contains_key(f)
                &&& forall|i: int| 0 <= i < 512 ==> #[trigger] entry_at(v1.mem, f, i) == 0
            }
        }),
{
    lemma_alloc_fresh(v);
    let (v1, r) = alloc_zeroed_spec(v);
    if let Some(f) = r {
        lemma_frame_words(f);
        assert forall|t: int| #[trigger] lvl.contains_key(t) implies t != f && frame_used(v1, t) by {
            lemma_frame_words(t);
        }
        assert forall|t: int, i: int| lvl.contains_key(t) && 0 <= i < 512 implies
            #[trigger] entry_at(v1.mem, t, i) == entry_at(v.mem, t, i) by {
            lemma_word_index_offset(t, i);
            lemma_word_in_frame(t, i);
            lemma_frame_words(t);
        }
        assert forall|i: int| 0 <= i < 512 implies #[trigger] entry_at(v1.mem, f, i) == 0 by {
            lemma_word_index_offset(f, i);
            lemma_word_in_frame(f, i);
        }
        assert(tree_inv(v1, lvl));
    }
}

/// Writing `d` into entry `i` of table `x` keeps the tree when `x` is a level-3
/// table or `d` is no table descriptor.
proof fn lemma_inv_write_leaf(v: MmView, lvl: Map<int, int>, x: int, i: int, d: u64)
    requires
        tree_inv(v, lvl),
        lvl.contains_key(x),
        0 <= i < 512,
        lvl[x] == 3 || !is_table_desc(d),
    ensures
        tree_inv(MmView { mem: write_word(v.mem, x + i * 8, d), ..v }, lvl),
        entry_at(write_word(v.mem, x + i * 8, d), x, i) == d,
{
    let v1 = MmView { mem: write_word(v.mem, x + i * 8, d), ..v };
    lemma_word_index_offset(x, i);
    assert forall|t: int, j: int| lvl.contains_key(t) && 0 <= j < 512 && !(t == x && j == i) implies
        #[trigger] entry_at(v1.mem, t, j) == entry_at(v.mem, t, j) by {
        lemma_word_index_offset(t, j);
        if t != x {
            lemma_frames_disjoint(t, x, j, i);
        }
    }
    assert(tree_inv(v1, lvl));
}

/// Following or creating the next-level table keeps the tree, extended by the new table.
proof fn lemma_inv_goa(v: MmView, lvl: Map<int, int>, t: int, idx: int, user: bool) -> (lvl1: Map<int, int>)
    requires
        tree_inv(v, lvl),
        lvl.contains_key(t),
        lvl[t] < 3,
        0 <= idx < 512,
    ensures
        ({
            let (v1, r) = goa_spec(v, t, idx, user);
            &&& tree_inv(v1, lvl1)
            &&& lvl.submap_of(lvl1)
            &&& v1.kernel_table == v.kernel_table
            &&& r matches Some(t1) ==> lvl1.contains_key(t1) && lvl1[t1] == lvl[t] + 1
        }),
{
    let e = entry_at(v.mem, t, idx);
    if crate::mm::pte_valid(e) {
        return lvl;
    }
    lemma_inv_alloc(v, lvl);
    let (v1, r) = alloc_zeroed_spec(v);
    if r is None {
        return lvl;
    }
    let f = r->0;
    lemma_table_desc(user, f);
    let d = table_desc(user, f);
    let v2 = MmView { mem: write_word(v1.mem, t + idx * 8, d), ..v1 };
    assert(goa_spec(v, t, idx, user) == (v2, Some(f)));
    let lvl1 = lvl.insert(f, lvl[t] + 1);
    lemma_word_index_offset(t, idx);
    assert forall|s: int, j: int| lvl1.contains_key(s) && 0 <= j < 512 && !(s == t && j == idx) implies
        #[trigger] entry_at(v2.mem, s, j) == entry_at(v1.mem, s, j) by {
        lemma_word_index_offset(s, j);
        if s != t {
            lemma_frames_disjoint(s, t, j, idx);
        }
    }
    assert(entry_at(v2.mem, t, idx) == d);
    lemma_zero_invalid();
    assert forall|s: int| #[trigger] lvl1.contains_key(s) implies table_in_ram(s) && frame_used(v2, s)
        && 0 <= lvl1[s] <= 3 by {
    }
    assert forall|s: int, j: int|
        #![trigger lvl1.contains_key(s), entry_at(v2.mem, s, j)]
        lvl1.contains_key(s) && 0 <= j < 512 && lvl1[s] < 3 && is_table_desc(entry_at(v2.mem, s, j)) implies {
            &&& lvl1.contains_key(desc_addr(entry_at(v2.mem, s, j)))
            &&& lvl1[desc_addr(entry_at(v2.mem, s, j))] == lvl1[s] + 1
        } by {
        if s == t && j == idx {
        } else if s == f {
            assert(entry_at(v1.mem, f, j) == 0);
        } else {
            assert(lvl.contains_key(s));
            assert(entry_at(v2.mem, s, j) == entry_at(v1.mem, s, j));
            assert(lvl.contains_key(desc_addr(entry_at(v1.mem, s, j))));
        }
    }
    assert(tree_inv(v2, lvl1));
    lvl1
}

/// A key of a map is a key of every extension, with the same value.
proof fn lemma_submap_key(a: Map<int, int>, b: Map<int, int>, k: int)
    requires
        a.submap_of(b),
        a.contains_key(k),
    ensures
        b.contains_key(k),
        b[k] == a[k],
{
    assert(a.dom().contains(k) ==> b.dom().contains(k) && a[k] == b[k]);
}

/// Extension is transitive.
proof fn lemma_submap_trans(a: Map<int, int>, b: Map<int, int>, c: Map<int, int>)
    requires
        a.submap_of(b),
        b.submap_of(c),
    ensures
        a.submap_of(c),
        forall|k: int| #[trigger] a.contains_key(k) ==> c.contains_key(k) && c[k] == a[k],
{
    assert forall|k: int| #[trigger] a.contains_key(k) implies c.contains_key(k) && c[k] == a[k] by {
        assert(b.contains_key(k));
    }
}

/// A descent from a table of the tree at level `from` walks tables in RAM and
/// keeps the tree; it ends at a table of level `to`.
proof fn lemma_inv_descend(v: MmView, lvl: Map<int, int>, t: int, vaddr: int, from: int, to: int, user: bool)
    -> (lvl2: Map<int, int>)
    requires
        tree_inv(v, lvl),
        lvl.contains_key(t),
        lvl[t] == from,
        0 <= from <= to <= 3,
    ensures
        descend_ok(v, t, vaddr, from, to, user),
        ({
            let (v2, r) = descend(v, t, vaddr, from, to, user);
            &&& tree_inv(v2, lvl2)
            &&& lvl.submap_of(lvl2)
            &&& v2.kernel_table == v.kernel_table
            &&& r matches Some(x) ==> lvl2.contains_key(x) && lvl2[x] == to
        }),
    decreases to - from,
{
    if from >= to {
        return lvl;
    }
    let idx = va_index(vaddr, from);
    let lvl1 = lemma_inv_goa(v, lvl, t, idx, user);
    let (v1, r) = goa_spec(v, t, idx, user);
    lemma_submap_key(lvl, lvl1, t);
    match r {
        None => {
            assert(descend(v, t, vaddr, from, to, user) == (v1, None::<int>));
            lvl1
        },
        Some(t1) => {
            let lvl2 = lemma_inv_descend(v1, lvl1, t1, vaddr, from + 1, to, user);
            lemma_submap_trans(lvl, lvl1, lvl2);
            assert(descend(v, t, vaddr, from, to, user) == descend(v1, t1, vaddr, from + 1, to, user));
            lvl2
        },
    }
}

/// A kernel 2 MiB block with attributes that leave bit 1 clear is no table descriptor.
proof fn lemma_block_not_table(paddr: int, attr: u64)
    requires
        0 <= paddr < 0x1_0000_0000_0000_0000,
        attr & 2 == 0,
    ensures
        !is_table_desc(block_desc(paddr, attr)),
{
    let b = block_base(paddr) as u64;
    assert(b % 0x20_0000 == 0) by {
        assert(block_base(paddr) % 0x20_0000 == 0) by (nonlinear_arith)
            requires block_base(paddr) == paddr - paddr % 0x20_0000;
    }
    let d = b | 1u64 | 0u64 | 0x400u64 | attr;
    assert(d & 2 == 0) by (bit_vector)
        requires d == b | 1u64 | 0u64 | 0x400u64 | attr, b % 0x20_0000 == 0, attr & 2 == 0;
}

/// Mapping a block keeps the tree, and the walk it makes stays in RAM.
proof fn lemma_inv_block(v: MmView, lvl: Map<int, int>, root: int, vaddr: int, paddr: int, attr: u64)
    -> (lvl2: Map<int, int>)
    requires
        tree_inv(v, lvl),
        lvl.contains_key(root),
        lvl[root] == 0,
        0 <= paddr < 0x1_0000_0000_0000_0000,
        attr & 2 == 0,
    ensures
        descend_ok(v, root, vaddr, 0, 2, false),
        tree_inv(map_block_spec(v, root, vaddr, paddr, attr).0, lvl2),
        lvl.submap_of(lvl2),
        map_block_spec(v, root, vaddr, paddr, attr).0.kernel_table == v.kernel_table,
{
    let lvl1 = lemma_inv_descend(v, lvl, root, vaddr, 0, 2, false);
    let (v2, r) = descend(v, root, vaddr, 0, 2, false);
    if let Some(l2) = r {
        let i2 = va_index(vaddr, 2);
        let e = entry_at(v2.mem, l2, i2);
        if !crate::mm::pte_valid(e) {
            lemma_block_not_table(paddr, attr);
            lemma_inv_write_leaf(v2, lvl1, l2, i2, block_desc(paddr, attr));
        }
    }
    lvl1
}

/// Mapping a page keeps the tree, and the walk it makes stays in RAM.
proof fn lemma_inv_page(v: MmView, lvl: Map<int, int>, root: int, vaddr: int, paddr: int, attr: u64)
    -> (lvl2: Map<int, int>)
    requires
        tree_inv(v, lvl),
        lvl.contains_key(root),
        lvl[root] == 0,
    ensures
        descend_ok(v, root, vaddr, 0, 3, false),
        tree_inv(map_page_spec(v, root, vaddr, paddr, attr).0, lvl2),
        lvl.submap_of(lvl2),
        map_page_spec(v, root, vaddr, paddr, attr).0.kernel_table == v.kernel_table,
{
    let lvl1 = lemma_inv_descend(v, lvl, root, vaddr, 0, 3, false);
    let (v3, r) = descend(v, root, vaddr, 0, 3, false);
    if let Some(l3) = r {
        lemma_inv_write_leaf(v3, lvl1, l3, va_index(vaddr, 3), leaf_desc(paddr, PTE_VALID | PTE_PAGE | attr));
    }
    lvl1
}

/// Mapping a range of blocks keeps the tree, and every block's walk stays in RAM.
proof fn lemma_inv_range(v: MmView, lvl: Map<int, int>, root: int, va: int, pa: int, end: int, attr: u64)
    -> (lvl2: Map<int, int>)
    requires
        tree_inv(v, lvl),
        lvl.contains_key(root),
        lvl[root] == 0,
        0 <= va,
        0 <= pa,
        end + BLOCK_SIZE <= usize::MAX,
        pa - va + end + BLOCK_SIZE <= usize::MAX,
        attr & 2 == 0,
    ensures
        map_range_ok(v, root, va, pa, end, attr),
        tree_inv(map_range_spec(v, root, va, pa, end, attr).0, lvl2),
        lvl.submap_of(lvl2),
        map_range_spec(v, root, va, pa, end, attr).0.kernel_table == v.kernel_table,
    decreases end - va + BLOCK_SIZE,
{
    if va >= end {
        return lvl;
    }
    let lvl1 = lemma_inv_block(v, lvl, root, va, pa, attr);
    let (v1, ok) = map_block_spec(v, root, va, pa, attr);
    lemma_submap_key(lvl, lvl1, root);
    if !ok {
        return lvl1;
    }
    let lvl2 = lemma_inv_range(v1, lvl1, root, va + BLOCK_SIZE, pa + BLOCK_SIZE, end, attr);
    lemma_submap_trans(lvl, lvl1, lvl2);
    lvl2
}

impl MemoryManager {
    /// Builds the kernel identity map in a fresh root table and records that root
    /// as the kernel table: RAM (128 MiB) as normal memory in 2 MiB blocks,
    /// `[0, 0x0800_0000)` as device memory in blocks, the 2 MiB GIC window as
    /// device memory in 4 KiB pages, and `[0x0820_0000, 0x4000_0000)` as device
    /// memory in blocks.
    pub fn init(&mut self) -> (r: KernelMapOutcome)
        requires
            old(self).wf(),
        ensures
            final(self).wf(),
            (final(self)@, r) == kernel_map_spec(old(self)@),
    {
        proof {
            self.lemma_mem_len();
            lemma_inv_alloc(self@, Map::empty());
        }
        let table = match self.alloc_zeroed_frame() {
            Some(t) => t,
            None => {
                return KernelMapOutcome::NoRootFrame;
            },
        };
        self.init_from_boot(table);
        let ghost lvl0 = Map::<int, int>::empty().insert(table as int, 0int);
        proof {
            self.lemma_mem_len();
            lemma_zero_invalid();
            assert(tree_inv(self@, lvl0));
            assert(KERNEL_RAM_ATTR & 2 == 0) by (bit_vector);
            assert(KERNEL_DEVICE_ATTR & 2 == 0) by (bit_vector);
            assert(block_base(RAM_START as int) == RAM_START);
            assert(block_base(0) == 0);
            assert(block_base(HIGH_DEVICE_START as int) == HIGH_DEVICE_START);
        }

        let ghost lvl1 = lemma_inv_range(self@, lvl0, table as int, RAM_START as int, RAM_START as int,
            RAM_START + KERNEL_RAM_MAP_SIZE, KERNEL_RAM_ATTR);
        if !self.map_range_2m(table, RAM_START, RAM_START, KERNEL_RAM_MAP_SIZE, KERNEL_RAM_ATTR) {
            return KernelMapOutcome::RangeFailed { vaddr: RAM_START };
        }
        proof {
            lemma_submap_key(lvl0, lvl1, table as int);
        }

        let ghost lvl2 = lemma_inv_range(self@, lvl1, table as int, 0, 0, LOW_DEVICE_END as int, KERNEL_DEVICE_ATTR);
        if !self.map_range_2m(table, 0, 0, LOW_DEVICE_END, KERNEL_DEVICE_ATTR) {
            return KernelMapOutcome::RangeFailed { vaddr: 0 };
        }
        proof {
            lemma_submap_key(lvl1, lvl2, table as int);
        }

        let ghost v3 = self@;
        let ghost mut lvl = lvl2;
        let mut i: usize = 0;
        let mut failed = false;
        while i < GIC_MAP_PAGES && !failed
            invariant
                self.wf(),
                i <= GIC_MAP_PAGES,
                tree_inv(self@, lvl),
                lvl.contains_key(table as int),
                lvl[table as int] == 0,
                self@.kernel_table == table,
                !failed ==> gic_pages_spec(self@, table as int, i as int) == gic_pages_spec(v3, table as int, 0),
                failed ==> (self@, i as int) == gic_pages_spec(v3, table as int, 0),
            decreases GIC_MAP_PAGES - i + (if failed { 0int } else { 1int }),
        {
            let va = GIC_MAP_START + i * 4096;
            let ghost before = self@;
            let ghost next = lemma_inv_page(self@, lvl, table as int, va as int, va as int, KERNEL_DEVICE_ATTR);
            let ok = self.map_page(table, va, va, KERNEL_DEVICE_ATTR);
            proof {
                lemma_submap_key(lvl, next, table as int);
                lvl = next;
                self.lemma_mem_len();
            }
            if ok {
                i = i + 1;
            } else {
                failed = true;
            }
        }
        let mapped = i;
        proof {
            if !failed {
                assert(i == GIC_MAP_PAGES);
            }
        }

        let ghost lvl4 = lemma_inv_range(self@, lvl, table as int, HIGH_DEVICE_START as int, HIGH_DEVICE_START as int,
            RAM_START as int, KERNEL_DEVICE_ATTR);
        if !self.map_range_2m(table, HIGH_DEVICE_START, HIGH_DEVICE_START, RAM_START - HIGH_DEVICE_START,
            KERNEL_DEVICE_ATTR) {
            return KernelMapOutcome::RangeFailed { vaddr: HIGH_DEVICE_START };
        }
        KernelMapOutcome::Mapped { root: table, gic_pages: mapped }
    }
}

} // verus!
