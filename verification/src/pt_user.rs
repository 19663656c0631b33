//! User translation tables: cloning the kernel's root entries and mapping user
//! pages, splitting a kernel 2 MiB block where a user page must override it.
use vstd::prelude::*;
use crate::pt_walk::{block_out_addr, is_table_desc, page_out_addr};
use crate::mm::{
    BLOCK_SPLIT_ATTR_MASK, ENTRIES_PER_TABLE, MemoryManager, MmView, PTE_PAGE, PTE_TABLE, PTE_VALID, TABLE_APTABLE0, TABLE_UXNTABLE, alloc_zeroed_spec, block_base, desc_addr, entry_at, entry_to_paddr, goa_spec, index_at, leaf_desc, lemma_desc_field, lemma_word_index_offset, make_entry, make_user_table_desc, opt_int, pte_table, pte_valid, table_in_ram, user_table_desc, va_index, word_index, write_word,
};
use crate::phys_mem::RAM_WORDS;
use crate::frame_alloc::{PAGE_SIZE, RAM_SIZE, RAM_START};

verus! {

/// A table descriptor with the hierarchical EL0 restrictions (APTable[0], UXNTable) cleared.
pub open spec fn user_entry(e: u64) -> u64 {
    e & !(TABLE_APTABLE0 | TABLE_UXNTABLE)
}

/// `mem` after the first `n` root entries of `src` that are table descriptors
/// were copied, unrestricted for EL0, into the same slots of `dst`.
pub open spec fn clone_prefix(mem: Seq<u64>, src: int, dst: int, n: int) -> Seq<u64> {
    Seq::new(mem.len(), |w: int| {
        let i = w - word_index(dst);
        let e = mem[word_index(src) + i];
        if 0 <= i < n && is_table_desc(e) { user_entry(e) } else { mem[w] }
    })
}

/// Effect of `clone_kernel_mappings(dst)`.
pub open spec fn clone_spec(v: MmView, dst: int) -> (MmView, bool) {
    if v.kernel_table == 0 {
        (v, false)
    } else {
        (MmView { mem: clone_prefix(v.mem, v.kernel_table as int, dst, 512), ..v }, true)
    }
}

/// Effect of `create_user_page_table`: a fresh root holding the kernel's root
/// table descriptors. The frame stays allocated when there is no kernel table.
pub open spec fn create_user_spec(v: MmView) -> (MmView, Option<int>) {
    let (v1, r) = alloc_zeroed_spec(v);
    match r {
        None => (v1, None),
        Some(t) => {
            let (v2, ok) = clone_spec(v1, t);
            (v2, if ok { Some(t) } else { None })
        },
    }
}

impl MemoryManager {
    /// Copies the kernel root's table descriptors into `dst_table`, clearing
    /// APTable[0] and UXNTable so EL0 leaf permissions take effect. `false` when no
    /// kernel root table is installed.
    #[verifier::spinoff_prover]
    pub fn clone_kernel_mappings(&mut self, dst_table: usize) -> (r: bool)
        requires
            old(self).wf(),
            table_in_ram(dst_table as int),
            old(self)@.kernel_table != 0 ==> table_in_ram(old(self)@.kernel_table as int),
        ensures
            final(self).wf(),
            (final(self)@, r) == clone_spec(old(self)@, dst_table as int),
    {
        let src = self.kernel_page_table();
        if src == 0 {
            return false;
        }
        let ghost mem0 = self@.mem;
        proof { self.lemma_mem_len(); }
        let ghost ws = word_index(src as int);
        let ghost wd = word_index(dst_table as int);
        assert(clone_prefix(mem0, src as int, dst_table as int, 0) =~= mem0);
        let mut i: usize = 0;
        while i < ENTRIES_PER_TABLE
            invariant
                self.wf(),
                src == self@.kernel_table,
                src == old(self)@.kernel_table,
                table_in_ram(src as int),
                table_in_ram(dst_table as int),
                mem0 == old(self)@.mem,
                mem0.len() == RAM_WORDS,
                ws == word_index(src as int),
                wd == word_index(dst_table as int),
                i <= ENTRIES_PER_TABLE,
                self@ == (MmView { mem: clone_prefix(mem0, src as int, dst_table as int, i as int), ..old(self)@ }),
            decreases ENTRIES_PER_TABLE - i,
        {
            proof {
                lemma_word_index_offset(src as int, i as int);
                lemma_word_index_offset(dst_table as int, i as int);
            }
            let entry = self.read_u64(src + i * 8);
            assert(entry == mem0[ws + i]);
            let ghost before = self@.mem;
            if entry & PTE_VALID != 0 && entry & PTE_TABLE != 0 {
                let user_e = entry & !(TABLE_APTABLE0 | TABLE_UXNTABLE);
                self.write_u64(dst_table + i * 8, user_e);
                assert(self@.mem == before.update(wd + i, user_entry(entry)));
            } else {
                assert(self@.mem == before);
            }
            assert forall|w: int| 0 <= w < mem0.len() implies #[trigger] self@.mem[w]
                == clone_prefix(mem0, src as int, dst_table as int, i + 1)[w] by {
                if w == wd + i {
                } else {
                }
            }
            assert(self@.mem =~= clone_prefix(mem0, src as int, dst_table as int, i + 1));
            i = i + 1;
        }
        true
    }

    /// A new root table with the kernel mappings cloned (see
    /// [`MemoryManager::clone_kernel_mappings`]); user code and stack mappings are
    /// added with [`MemoryManager::map_user_page`].
    pub fn create_user_page_table(&mut self) -> (r: Option<usize>)
        requires
            old(self).wf(),
            old(self)@.kernel_table != 0 ==> table_in_ram(old(self)@.kernel_table as int),
        ensures
            final(self).wf(),
            (final(self)@, opt_int(r)) == create_user_spec(old(self)@),
    {
        let table = match self.alloc_zeroed_frame() {
            Some(t) => t,
            None => {
                return None;
            },
        };
        if !self.clone_kernel_mappings(table) {
            return None;
        }
        Some(table)
    }
}


/// Effect of one upper-level step of `map_user_page` (levels 0 and 1): an existing
/// table descriptor loses its EL0 restrictions and is followed; an empty entry
/// gets a fresh user table; anything else stops the walk.
pub open spec fn user_level_spec(v: MmView, t: int, idx: int) -> (MmView, Option<int>) {
    let e = entry_at(v.mem, t, idx);
    if is_table_desc(e) {
        if table_in_ram(desc_addr(e)) {
            (MmView { mem: write_word(v.mem, t + idx * 8, user_entry(e)), ..v }, Some(desc_addr(user_entry(e))))
        } else {
            (v, None)
        }
    } else if e == 0 {
        let (v1, f) = alloc_zeroed_spec(v);
        match f {
            None => (v1, None),
            Some(f) => (MmView { mem: write_word(v1.mem, t + idx * 8, user_table_desc(f)), ..v1 }, Some(f)),
        }
    } else {
        (v, None)
    }
}

/// Page `k` of the 2 MiB block that descriptor `e` maps, with the block's attributes.
pub open spec fn split_desc(e: u64, k: int) -> u64 {
    ((block_base(e as int) + k * 4096) as u64) | (e & BLOCK_SPLIT_ATTR_MASK) | PTE_VALID | PTE_PAGE
}

/// The block attributes a split keeps on every page: the bits of
/// [`BLOCK_SPLIT_ATTR_MASK`] above the two descriptor-type bits.
pub open spec fn split_attrs(e: u64) -> u64 {
    e & 0x0078_0000_0000_0FFC
}

/// Splitting a block keeps what it maps: page `k` of the split is a valid page
/// descriptor for the `k`-th 4 KiB page of the block, with the block's attributes.
pub proof fn law_split_keeps_block(e: u64, k: int)
    requires
        0 <= k < 512,
    ensures
        page_out_addr(split_desc(e, k)) == block_out_addr(e) + k * 0x1000,
        split_attrs(split_desc(e, k)) == split_attrs(e),
        pte_valid(split_desc(e, k)),
        pte_table(split_desc(e, k)),
{
    let kk = k as u64;
    let b: u64 = (e >> 21) << 21;
    assert(b == e - e % 0x20_0000 && b <= 0xFFFF_FFFF_FFE0_0000) by (bit_vector)
        requires b == (e >> 21) << 21;
    let p: u64 = (b + kk * 4096) as u64;
    assert(p == block_base(e as int) + k * 4096);
    let d: u64 = p | (e & 0x0078_0000_0000_0FFF) | 1u64 | 2u64;
    assert(d == split_desc(e, k));
    assert(
        (d / 0x1000) % 0x10_0000_0000 * 0x1000 == (e / 0x20_0000) % 0x800_0000 * 0x20_0000 + kk * 0x1000
        && d & 0x0078_0000_0000_0FFC == e & 0x0078_0000_0000_0FFC
        && d & 1 != 0 && d & 2 != 0
    ) by (bit_vector)
        requires
            b == (e >> 21) << 21,
            kk < 512,
            p == b + kk * 4096,
            d == p | (e & 0x0078_0000_0000_0FFF) | 1u64 | 2u64,
    ;
}

/// `mem` with the table at `f` holding the 512 pages of the block mapped by `e`.
pub open spec fn fill_split(mem: Seq<u64>, f: int, e: u64) -> Seq<u64> {
    Seq::new(mem.len(), |w: int| {
        let k = w - word_index(f);
        if 0 <= k < 512 { split_desc(e, k) } else { mem[w] }
    })
}

/// Effect of the level-2 step of `map_user_page`: a table descriptor is followed
/// as above; a 2 MiB block is split into a fresh user table of 512 pages keeping
/// the block's attributes; an invalid entry gets a fresh user table.
pub open spec fn user_l2_spec(v: MmView, t: int, idx: int) -> (MmView, Option<int>) {
    let e = entry_at(v.mem, t, idx);
    if is_table_desc(e) {
        if table_in_ram(desc_addr(e)) {
            (MmView { mem: write_word(v.mem, t + idx * 8, user_entry(e)), ..v }, Some(desc_addr(user_entry(e))))
        } else {
            (v, None)
        }
    } else if pte_valid(e) {
        let (v1, f) = alloc_zeroed_spec(v);
        match f {
            None => (v1, None),
            Some(f) => (MmView {
                mem: write_word(fill_split(v1.mem, f, e), t + idx * 8, user_table_desc(f)),
                ..v1
            }, Some(f)),
        }
    } else {
        goa_spec(v, t, idx, true)
    }
}

/// Effect of `map_user_page(table, vaddr, paddr, attr)`.
pub open spec fn map_user_spec(v: MmView, t: int, vaddr: int, paddr: int, attr: u64) -> (MmView, bool) {
    let (v1, r1) = if table_in_ram(t) { user_level_spec(v, t, va_index(vaddr, 0)) } else { (v, None) };
    match r1 {
        None => (v1, false),
        Some(l1) => {
            let (v2, r2) = user_level_spec(v1, l1, va_index(vaddr, 1));
            match r2 {
                None => (v2, false),
                Some(l2) => {
                    let (v3, r3) = user_l2_spec(v2, l2, va_index(vaddr, 2));
                    match r3 {
                        None => (v3, false),
                        Some(l3) => (MmView {
                            mem: write_word(v3.mem, l3 + va_index(vaddr, 3) * 8, leaf_desc(paddr, PTE_VALID | PTE_PAGE | attr)),
                            ..v3
                        }, true),
                    }
                },
            }
        },
    }
}

/// Whether `p` is a whole 4 KiB frame of RAM, where a table can live.
fn addr_table_in_ram(p: usize) -> (r: bool)
    ensures
        r == table_in_ram(p as int),
{
    RAM_START <= p && p <= RAM_START + RAM_SIZE - PAGE_SIZE && p % PAGE_SIZE == 0
}

/// Whether the table that descriptor `e` names lies in RAM.
fn desc_table_in_ram(e: u64) -> (r: bool)
    ensures
        r == table_in_ram(desc_addr(e)),
{
    proof { lemma_desc_field(e); }
    let a: u64 = ((e >> 12) & 0xFFFF_FFFF_FFFF) * 4096;
    assert(a == desc_addr(e));
    (RAM_START as u64) <= a && a <= (RAM_START + RAM_SIZE - PAGE_SIZE) as u64 && a % 4096 == 0
}

/// Lifting the EL0 restrictions of a descriptor keeps its valid and table bits
/// and the table it names, and leaves APTable[0] and UXNTable clear.
pub proof fn lemma_user_entry_bits(e: u64)
    ensures
        desc_addr(user_entry(e)) == desc_addr(e),
        user_entry(e) & 1 == e & 1,
        user_entry(e) & 2 == e & 2,
        user_entry(e) & (TABLE_APTABLE0 | TABLE_UXNTABLE) == 0,
{
    let u = user_entry(e);
    assert(u == e & !(0x2000_0000_0000_0000u64 | 0x1000_0000_0000_0000u64));
    assert((u / 4096) % 0x1_0000_0000_0000 == (e / 4096) % 0x1_0000_0000_0000
        && u & 1 == e & 1 && u & 2 == e & 2
        && u & (0x2000_0000_0000_0000u64 | 0x1000_0000_0000_0000u64) == 0) by (bit_vector)
        requires u == e & !(0x2000_0000_0000_0000u64 | 0x1000_0000_0000_0000u64);
}

impl MemoryManager {
    fn user_level(&mut self, table: usize, idx: usize) -> (r: Option<usize>)
        requires
            old(self).wf(),
            table_in_ram(table as int),
            idx < 512,
        ensures
            final(self).wf(),
            (final(self)@, opt_int(r)) == user_level_spec(old(self)@, table as int, idx as int),
            r matches Some(t1) ==> table_in_ram(t1 as int),
    {
        proof { lemma_word_index_offset(table as int, idx as int); }
        let entry_addr = table + idx * 8;
        let entry = self.read_u64(entry_addr);
        assert((entry & 2u64 == 2u64) == (entry & 2u64 != 0u64)) by (bit_vector);
        if entry & PTE_VALID != 0 && (entry & PTE_TABLE) == PTE_TABLE {
            if !desc_table_in_ram(entry) {
                return None;
            }
            let cleared = entry & !(TABLE_APTABLE0 | TABLE_UXNTABLE);
            proof { lemma_user_entry_bits(entry); }
            self.write_u64(entry_addr, cleared);
            Some(entry_to_paddr(cleared))
        } else if entry == 0 {
            let f = match self.alloc_zeroed_frame() {
                Some(f) => f,
                None => {
                    return None;
                },
            };
            self.write_u64(entry_addr, make_user_table_desc(f));
            Some(f)
        } else {
            None
        }
    }

    /// Replaces the zeroed table at `f` by the 512 pages of the block mapped by `e`.
    fn split_block_into(&mut self, f: usize, e: u64)
        requires
            old(self).wf(),
            table_in_ram(f as int),
        ensures
            final(self).wf(),
            final(self)@ == (MmView { mem: fill_split(old(self)@.mem, f as int, e), ..old(self)@ }),
    {
        let base = (e >> 21) << 21;
        let common_attr = e & BLOCK_SPLIT_ATTR_MASK;
        assert(base == e - e % 0x20_0000 && base % 0x20_0000 == 0) by (bit_vector)
            requires base == (e >> 21) << 21;
        let ghost mem0 = self@.mem;
        proof { self.lemma_mem_len(); }
        let ghost wf0 = word_index(f as int);
        assert(Seq::new(mem0.len(), |w: int| {
            let k = w - wf0;
            if 0 <= k < 0 { split_desc(e, k) } else { mem0[w] }
        }) =~= mem0);
        let mut i: usize = 0;
        while i < ENTRIES_PER_TABLE
            invariant
                self.wf(),
                table_in_ram(f as int),
                wf0 == word_index(f as int),
                mem0 == old(self)@.mem,
                mem0.len() == RAM_WORDS,
                base == e - e % 0x20_0000,
                base % 0x20_0000 == 0,
                common_attr == e & BLOCK_SPLIT_ATTR_MASK,
                i <= ENTRIES_PER_TABLE,
                self@ == (MmView {
                    mem: Seq::new(mem0.len(), |w: int| {
                        let k = w - wf0;
                        if 0 <= k < i { split_desc(e, k) } else { mem0[w] }
                    }),
                    ..old(self)@
                }),
            decreases ENTRIES_PER_TABLE - i,
        {
            proof { lemma_word_index_offset(f as int, i as int); }
            let ii = i as u64;
            let pa = base + ii * 4096;
            assert(pa % 4096 == 0 && pa < 0x1_0000_0000_0000_0000) by (bit_vector)
                requires base % 0x20_0000 == 0, ii < 512, pa == base + ii * 4096;
            let page_desc = ((pa >> 12) << 12) | common_attr | PTE_VALID | PTE_PAGE;
            assert((pa >> 12) << 12 == pa) by (bit_vector) requires pa % 4096 == 0;
            let ghost before = self@.mem;
            self.write_u64(f + i * 8, page_desc);
            assert(page_desc == split_desc(e, i as int));
            assert(self@.mem =~= Seq::new(mem0.len(), |w: int| {
                let k = w - wf0;
                if 0 <= k < i + 1 { split_desc(e, k) } else { mem0[w] }
            }));
            i = i + 1;
        }
        assert(self@.mem =~= fill_split(mem0, f as int, e));
    }

    fn user_level2(&mut self, table: usize, idx: usize) -> (r: Option<usize>)
        requires
            old(self).wf(),
            table_in_ram(table as int),
            idx < 512,
        ensures
            final(self).wf(),
            (final(self)@, opt_int(r)) == user_l2_spec(old(self)@, table as int, idx as int),
            r matches Some(t1) ==> table_in_ram(t1 as int),
    {
        proof { lemma_word_index_offset(table as int, idx as int); }
        let entry_addr = table + idx * 8;
        let entry = self.read_u64(entry_addr);
        assert((entry & 2u64 == 2u64) == (entry & 2u64 != 0u64)) by (bit_vector);
        if entry & PTE_VALID != 0 && (entry & PTE_TABLE) == PTE_TABLE {
            if !desc_table_in_ram(entry) {
                return None;
            }
            let cleared = entry & !(TABLE_APTABLE0 | TABLE_UXNTABLE);
            proof { lemma_user_entry_bits(entry); }
            self.write_u64(entry_addr, cleared);
            Some(entry_to_paddr(cleared))
        } else if entry & PTE_VALID != 0 {
            let f = match self.alloc_zeroed_frame() {
                Some(f) => f,
                None => {
                    return None;
                },
            };
            self.split_block_into(f, entry);
            self.write_u64(entry_addr, make_user_table_desc(f));
            Some(f)
        } else {
            proof {
                let e = entry_at(old(self)@.mem, table as int, idx as int);
                assert(!pte_valid(e));
                old(self).lemma_mem_len();
                crate::pt_walk::lemma_alloc_fresh(old(self)@);
            }
            self.get_or_alloc_table_with(table, idx, true)
        }
    }

    /// Maps the 4 KiB user page at `vaddr` to `paddr` with `attr` in the tree
    /// rooted at `table`. Table descriptors on the way lose their EL0 restrictions,
    /// missing tables are created as user tables, and a 2 MiB block at level 2 is
    /// split into 512 pages so that one page can be overridden. `false` when the
    /// root or a table named on the way is not a frame of RAM, a non-empty
    /// invalid entry sits at level 0 or 1, a block sits at level 1, or no frame
    /// is left.
    pub fn map_user_page(&mut self, table: usize, vaddr: usize, paddr: usize, attr: u64) -> (r: bool)
        requires
            old(self).wf(),
        ensures
            final(self).wf(),
            (final(self)@, r) == map_user_spec(old(self)@, table as int, vaddr as int, paddr as int, attr),
    {
        if !addr_table_in_ram(table) {
            return false;
        }
        let idx0 = index_at(vaddr, 0);
        let l1 = match self.user_level(table, idx0) {
            Some(t) => t,
            None => {
                return false;
            },
        };
        let idx1 = index_at(vaddr, 1);
        let l2 = match self.user_level(l1, idx1) {
            Some(t) => t,
            None => {
                return false;
            },
        };
        let idx2 = index_at(vaddr, 2);
        let l3 = match self.user_level2(l2, idx2) {
            Some(t) => t,
            None => {
                return false;
            },
        };
        let idx3 = index_at(vaddr, 3);
        proof { lemma_word_index_offset(l3 as int, idx3 as int); }
        let pte = make_entry(paddr, PTE_VALID | PTE_PAGE | attr);
        self.write_u64(l3 + idx3 * 8, pte);
        true
    }
}

} // verus!
