//! Reading translation tables back: descriptor decoding and the walk of one
//! address, as the boot-time table dump reports them.
use vstd::prelude::*;
use crate::frame_alloc::{PAGE_SIZE, RAM_START, RAM_SIZE};
use crate::mm::{
    MemoryManager, PTE_BLOCK, PTE_TABLE, PTE_VALID, block_base, desc_addr, entry_at, index_at,
    lemma_desc_field, lemma_word_index_offset, pte_table, pte_valid, table_in_ram, va_index,
};
use crate::pt_walk::{is_table_desc, leaf_entry, walk};

verus! {

/// How a descriptor is labelled in a dump.
#[derive(Clone, Copy, PartialEq, Eq, Debug, Structural)]
pub enum DescKind {
    Table,
    Block,
    Unknown,
}

/// Bit 1 set reads as a table; valid with bit 1 clear reads as a block.
pub open spec fn desc_kind_of(e: u64) -> DescKind {
    if pte_table(e) {
        DescKind::Table
    } else if pte_valid(e) {
        DescKind::Block
    } else {
        DescKind::Unknown
    }
}

/// The label of descriptor `entry`.
pub fn desc_kind(entry: u64) -> (r: DescKind)
    ensures
        r == desc_kind_of(entry),
{
    assert((entry & 2 == 2) == (entry & 2 != 0) && (entry & 2 == 0) == !(entry & 2 != 0)) by (bit_vector);
    if entry & PTE_TABLE == PTE_TABLE {
        DescKind::Table
    } else if entry & PTE_VALID != 0 && entry & PTE_TABLE == PTE_BLOCK {
        DescKind::Block
    } else {
        DescKind::Unknown
    }
}

/// The next-level address held by a table (or page) descriptor, bits `[59:12]`.
pub fn table_output_addr(entry: u64) -> (r: u64)
    ensures
        r == desc_addr(entry),
{
    let f = (entry >> 12) & 0xFFFF_FFFF_FFFF;
    proof { lemma_desc_field(entry); }
    f * 4096
}

/// A block descriptor with bits `[20:0]` cleared: its output address together
/// with its upper attribute bits, as the dump prints it.
pub fn block_output_addr(entry: u64) -> (r: u64)
    ensures
        r == block_base(entry as int),
{
    let r = (entry >> 21) << 21;
    assert(r == entry - entry % 0x20_0000) by (bit_vector)
        requires r == (entry >> 21) << 21;
    r
}

/// Where a walk of one virtual address ends.
#[derive(Clone, Copy, PartialEq, Eq, Debug, Structural)]
pub enum Probe {
    /// The walk reached a level-3 table; its entry `index` holds `entry`.
    Leaf { index: usize, entry: u64 },
    /// Entry `index` of the table at `level` (0 to 2) holds `entry`, which is no table descriptor.
    NotTable { level: usize, index: usize, entry: u64 },
    /// The table the walk reached at `level` does not lie in RAM.
    OutsideRam { level: usize, table: u64 },
}

/// The walk of `vaddr` from table `t` at `level`.
pub open spec fn probe_from(mem: Seq<u64>, t: int, vaddr: int, level: int) -> Probe
    decreases 3 - level,
{
    if !table_in_ram(t) {
        Probe::OutsideRam { level: level as usize, table: t as u64 }
    } else if level >= 3 {
        Probe::Leaf { index: va_index(vaddr, 3) as usize, entry: entry_at(mem, t, va_index(vaddr, 3)) }
    } else {
        let e = entry_at(mem, t, va_index(vaddr, level));
        if is_table_desc(e) {
            probe_from(mem, desc_addr(e), vaddr, level + 1)
        } else {
            Probe::NotTable { level: level as usize, index: va_index(vaddr, level) as usize, entry: e }
        }
    }
}

/// A walk that reaches level 3 finds the same descriptor the MMU walk does.
pub proof fn lemma_probe_leaf(mem: Seq<u64>, t: int, vaddr: int, level: int)
    requires
        0 <= level <= 3,
        probe_from(mem, t, vaddr, level) is Leaf,
    ensures
        walk(mem, t, vaddr, level, 3) matches Some(l3)
            && entry_at(mem, l3, va_index(vaddr, 3)) == probe_from(mem, t, vaddr, level)->Leaf_entry,
    decreases 3 - level,
{
    if level < 3 {
        let e = entry_at(mem, t, va_index(vaddr, level));
        lemma_probe_leaf(mem, desc_addr(e), vaddr, level + 1);
    }
}

/// The walk from a root that ends at a level-3 table gives the same descriptor as
/// the MMU's walk of `vaddr`.
pub proof fn law_probe_agrees_with_walk(mem: Seq<u64>, root: int, vaddr: int)
    requires
        probe_from(mem, root, vaddr, 0) is Leaf,
    ensures
        leaf_entry(mem, root, vaddr) == Some(probe_from(mem, root, vaddr, 0)->Leaf_entry),
{
    lemma_probe_leaf(mem, root, vaddr, 0);
}

impl MemoryManager {
    /// Entry `idx` of the table at `table`; `None` when that table does not lie in
    /// RAM or `idx` is past the last entry.
    pub fn read_entry(&self, table: u64, idx: usize) -> (r: Option<u64>)
        requires
            self.wf(),
        ensures
            r == (if table_in_ram(table as int) && idx < 512 {
                Some(entry_at(self@.mem, table as int, idx as int))
            } else {
                None
            }),
    {
        if !(RAM_START as u64 <= table && table <= (RAM_START + RAM_SIZE - PAGE_SIZE) as u64 && table % 4096 == 0) || idx >= 512 {
            return None;
        }
        let t = table as usize;
        proof {
            lemma_word_index_offset(t as int, idx as int);
        }
        Some(self.read_u64(t + idx * 8))
    }

    /// Walks the tables from `table` for `vaddr` and reports where the walk ends.
    pub fn probe(&self, table: u64, vaddr: usize) -> (r: Probe)
        requires
            self.wf(),
        ensures
            r == probe_from(self@.mem, table as int, vaddr as int, 0),
    {
        let mut t = table;
        let mut level: usize = 0;
        loop
            invariant
                self.wf(),
                level <= 3,
                probe_from(self@.mem, t as int, vaddr as int, level as int)
                    == probe_from(self@.mem, table as int, vaddr as int, 0),
            decreases 3 - level,
        {
            if !(RAM_START as u64 <= t && t <= (RAM_START + RAM_SIZE - PAGE_SIZE) as u64 && t % 4096 == 0) {
                return Probe::OutsideRam { level, table: t };
            }
            let tu = t as usize;
            let idx = index_at(vaddr, level);
            proof {
                lemma_word_index_offset(tu as int, idx as int);
            }
            let e = self.read_u64(tu + idx * 8);
            if level == 3 {
                return Probe::Leaf { index: idx, entry: e };
            }
            if e & PTE_VALID != 0 && e & PTE_TABLE != 0 {
                t = table_output_addr(e);
                level = level + 1;
            } else {
                return Probe::NotTable { level, index: idx, entry: e };
            }
        }
    }
}

} // verus!
