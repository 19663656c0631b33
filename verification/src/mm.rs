//! AArch64 4-level translation tables (4 KiB granule) built in physical RAM.
//!
//! RAM is modelled word by word; the tables live in frames handed out by the
//! [`FrameAllocator`]. Kernel RAM and MMIO use 2 MiB blocks at level 2; user
//! pages are 4 KiB entries at level 3.
use vstd::prelude::*;
use crate::phys_mem::{PhysMem, zero_page, RAM_WORDS};
use crate::frame_alloc::{
    FrameAllocator, PAGE_SIZE, RAM_START, RAM_SIZE, TOTAL_FRAMES, frame_addr, after_alloc, after_free,
    next_free, all_used,
};

verus! {

pub const BLOCK_SIZE: usize = 0x20_0000;
pub const ENTRIES_PER_TABLE: usize = 512;

/// Bit 0.
pub const PTE_VALID: u64 = 0x1;
/// Bit 1.
pub const PTE_TABLE: u64 = 0x2;
/// Bit 1 clear.
pub const PTE_BLOCK: u64 = 0x0;
/// Bit 1.
pub const PTE_PAGE: u64 = 0x2;
/// Access flag, bit 10.
pub const PTE_AF: u64 = 0x400;
/// AP = 0b11 (bits [7:6]).
pub const PTE_AP_RO: u64 = 0xC0;
/// EL1 read/write, EL0 no access.
pub const PTE_AP_RW_EL1: u64 = 0x0;
/// EL1 and EL0 read/write (user pages).
pub const PTE_AP_RW_ALL: u64 = 0x40;
/// Inner Shareable (descriptor bits [9:8]).
pub const PTE_SH_IS: u64 = 0x300;
/// Non-Shareable (descriptor bits [9:8]), for Device memory.
pub const PTE_SH_NONE: u64 = 0x0;
/// Unprivileged execute-never.
pub const PTE_UXN: u64 = 0x40_0000_0000_0000;
/// Privileged execute-never.
pub const PTE_PXN: u64 = 0x20_0000_0000_0000;
/// Table descriptor: the subtree denies EL0 access.
pub const TABLE_APTABLE0: u64 = 0x2000_0000_0000_0000;
/// Table descriptor: the subtree is EL0 execute-never.
pub const TABLE_UXNTABLE: u64 = 0x1000_0000_0000_0000;

/// MAIR index 0 (AttrIndx, bits [4:2]).
pub const ATTR_NORMAL: u64 = 0x0;
/// MAIR index 1.
pub const ATTR_DEVICE: u64 = 0x4;

/// Bits of a block descriptor kept on each page when the block is split:
/// AttrIdx/AP/SH/AF/nG and the low control bits, DBM, Contiguous, PXN, UXN.
pub const BLOCK_SPLIT_ATTR_MASK: u64 = 0x0078_0000_0000_0FFF;

/// Size of the address range one entry maps at `level` (0 = root).
pub open spec fn level_span(level: int) -> int {
    if level == 0 { 0x80_0000_0000 }
    else if level == 1 { 0x4000_0000 }
    else if level == 2 { 0x20_0000 }
    else { 0x1000 }
}

/// Index of `vaddr` in the table at `level`: bits `[47:39]`, `[38:30]`, `[29:21]`, `[20:12]`.
pub open spec fn va_index(vaddr: int, level: int) -> int {
    (vaddr / level_span(level)) % 512
}

/// Index of `vaddr` in the translation table at `level` (0 = root, 3 = last).
pub fn index_at(vaddr: usize, level: usize) -> (r: usize)
    requires
        level <= 3,
    ensures
        r == va_index(vaddr as int, level as int),
        r < 512,
{
    let shift = (12 + (3 - level) * 9) as u64;
    let v = vaddr as u64;
    let r64 = (v >> shift) & 0x1FF;
    assert(r64 < 512
        && (shift == 39 ==> r64 == (v / 0x80_0000_0000) % 512)
        && (shift == 30 ==> r64 == (v / 0x4000_0000) % 512)
        && (shift == 21 ==> r64 == (v / 0x20_0000) % 512)
        && (shift == 12 ==> r64 == (v / 0x1000) % 512)) by (bit_vector)
        requires r64 == (v >> shift) & 0x1FF;
    r64 as usize
}

/// The descriptor is valid (bit 0).
pub open spec fn pte_valid(e: u64) -> bool {
    e & PTE_VALID != 0
}

/// The descriptor is a table (or, at level 3, page) descriptor (bit 1).
pub open spec fn pte_table(e: u64) -> bool {
    e & PTE_TABLE != 0
}

/// Output address held in bits `[59:12]` of a descriptor.
pub open spec fn desc_addr(e: u64) -> int {
    ((e as int) / 4096) % 0x1_0000_0000_0000 * 4096
}

/// `p` rounded down to its 4 KiB frame.
pub open spec fn frame_base(p: int) -> int {
    p - p % 4096
}

/// `p` rounded down to its 2 MiB block.
pub open spec fn block_base(p: int) -> int {
    p - p % 0x20_0000
}

/// Output address of a descriptor.
pub fn entry_to_paddr(entry: u64) -> (r: usize)
    requires
        desc_addr(entry) <= usize::MAX,
    ensures
        r == desc_addr(entry),
{
    let f = (entry >> 12) & 0xFFFF_FFFF_FFFF;
    proof { lemma_desc_field(entry); }
    (f as usize) * PAGE_SIZE
}

/// Bits `[59:12]` of a descriptor, as shifts and masks compute them.
pub proof fn lemma_desc_field(entry: u64)
    ensures
        (entry >> 12) & 0xFFFF_FFFF_FFFF == (entry / 4096) % 0x1_0000_0000_0000,
{
    assert((entry >> 12) & 0xFFFF_FFFF_FFFF == (entry / 4096) % 0x1_0000_0000_0000) by (bit_vector);
}

/// Clearing the low 12 bits by shifts rounds down to the 4 KiB frame.
pub proof fn lemma_frame_bits(p: u64)
    ensures
        (p >> 12) << 12 == p - p % 4096,
{
    assert((p >> 12) << 12 == p - p % 4096) by (bit_vector);
}

/// A leaf descriptor: the frame of `paddr`, the access flag and `flags`.
pub open spec fn leaf_desc(paddr: int, flags: u64) -> u64 {
    (frame_base(paddr) as u64) | PTE_AF | flags
}

/// A kernel table descriptor: its subtree denies EL0 access and EL0 execution.
pub open spec fn kernel_table_desc(paddr: int) -> u64 {
    (frame_base(paddr) as u64) | PTE_VALID | PTE_TABLE | TABLE_UXNTABLE | TABLE_APTABLE0
}

/// A user table descriptor: no hierarchical restriction on EL0.
pub open spec fn user_table_desc(paddr: int) -> u64 {
    (frame_base(paddr) as u64) | PTE_VALID | PTE_TABLE
}

pub open spec fn table_desc(user: bool, paddr: int) -> u64 {
    if user { user_table_desc(paddr) } else { kernel_table_desc(paddr) }
}

/// A 2 MiB block descriptor at level 2.
pub open spec fn block_desc(paddr: int, attr: u64) -> u64 {
    (block_base(paddr) as u64) | PTE_VALID | PTE_BLOCK | PTE_AF | attr
}

/// Leaf descriptor for `paddr` with `flags`; the access flag is always set.
pub fn make_entry(paddr: usize, flags: u64) -> (r: u64)
    ensures
        r == leaf_desc(paddr as int, flags),
{
    let p = paddr as u64;
    let r = ((p >> 12) << 12) | PTE_AF | flags;
    proof { lemma_frame_bits(p); }
    r
}

/// Kernel table descriptor for the next-level table at `paddr`.
pub fn make_table_desc(paddr: usize) -> (r: u64)
    ensures
        r == kernel_table_desc(paddr as int),
{
    let p = paddr as u64;
    proof { lemma_frame_bits(p); }
    ((p >> 12) << 12) | PTE_VALID | PTE_TABLE | TABLE_UXNTABLE | TABLE_APTABLE0
}

/// User table descriptor: APTable[0] must stay clear, or EL0 is denied the whole subtree.
pub fn make_user_table_desc(paddr: usize) -> (r: u64)
    ensures
        r == user_table_desc(paddr as int),
{
    let p = paddr as u64;
    proof { lemma_frame_bits(p); }
    ((p >> 12) << 12) | PTE_VALID | PTE_TABLE
}

fn make_desc(user: bool, paddr: usize) -> (r: u64)
    ensures
        r == table_desc(user, paddr as int),
{
    if user { make_user_table_desc(paddr) } else { make_table_desc(paddr) }
}

/// A table descriptor built for a frame points back at that frame.
pub proof fn lemma_table_desc(user: bool, f: int)
    requires
        0 <= f < 0x1_0000_0000_0000_0000,
        f % 4096 == 0,
        f < 0x1000_0000_0000_0000,
    ensures
        pte_valid(table_desc(user, f)),
        pte_table(table_desc(user, f)),
        desc_addr(table_desc(user, f)) == f,
{
    let p = f as u64;
    assert(frame_base(f) == f);
    if user {
        let d = p | 1u64 | 2u64;
        assert(d & 1 != 0 && d & 2 != 0 && (d / 4096) % 0x1_0000_0000_0000 * 4096 == p) by (bit_vector)
            requires d == p | 1u64 | 2u64, p % 4096 == 0, p < 0x1000_0000_0000_0000;
    } else {
        let d = p | 1u64 | 2u64 | 0x1000_0000_0000_0000u64 | 0x2000_0000_0000_0000u64;
        assert(d & 1 != 0 && d & 2 != 0 && (d / 4096) % 0x1_0000_0000_0000 * 4096 == p) by (bit_vector)
            requires d == p | 1u64 | 2u64 | 0x1000_0000_0000_0000u64 | 0x2000_0000_0000_0000u64,
                p % 4096 == 0, p < 0x1000_0000_0000_0000;
    }
}

/// The zero descriptor is invalid.
pub proof fn lemma_zero_invalid()
    ensures
        !pte_valid(0),
{
    assert(0u64 & 1 == 0) by (bit_vector);
}

/// An optional address read as an integer.
pub open spec fn opt_int(r: Option<usize>) -> Option<int> {
    match r {
        Some(p) => Some(p as int),
        None => None,
    }
}

/// The word index of physical address `p`.
pub open spec fn word_index(p: int) -> int {
    (p - RAM_START) / 8
}

/// `p` is an 8-byte aligned address inside RAM.
pub open spec fn word_in_ram(p: int) -> bool {
    RAM_START <= p < RAM_START + RAM_SIZE && p % 8 == 0
}

/// `t` is a 4 KiB aligned frame inside RAM: a table the model can hold.
pub open spec fn table_in_ram(t: int) -> bool {
    RAM_START <= t && t + PAGE_SIZE <= RAM_START + RAM_SIZE && t % 4096 == 0
}

pub open spec fn read_word(mem: Seq<u64>, p: int) -> u64 {
    mem[word_index(p)]
}

pub open spec fn write_word(mem: Seq<u64>, p: int, v: u64) -> Seq<u64> {
    mem.update(word_index(p), v)
}

/// Entry `idx` of the table at `t`.
pub open spec fn entry_at(mem: Seq<u64>, t: int, idx: int) -> u64 {
    read_word(mem, t + idx * 8)
}

// ---------------------------------------------------------------------------
// Memory manager: frames, RAM and the kernel root table
// ---------------------------------------------------------------------------

pub struct MmView {
    pub used: Seq<bool>,
    pub next: nat,
    pub mem: Seq<u64>,
    pub kernel_table: usize,
}

pub struct MemoryManager {
    frames: FrameAllocator,
    mem: PhysMem,
    kernel_table: usize,
}

impl View for MemoryManager {
    type V = MmView;

    closed spec fn view(&self) -> MmView {
        MmView {
            used: self.frames.used(),
            next: self.frames.next(),
            mem: self.mem.view(),
            kernel_table: self.kernel_table,
        }
    }
}

/// Effect of `alloc_zeroed_frame`.
pub open spec fn alloc_zeroed_spec(v: MmView) -> (MmView, Option<int>) {
    match next_free(v.used, v.next as int) {
        None => (v, None),
        Some(idx) => (MmView {
            used: after_alloc(v.used, idx),
            next: (idx + 1) as nat,
            mem: zero_page(v.mem, idx),
            kernel_table: v.kernel_table,
        }, Some(frame_addr(idx))),
    }
}

/// Effect of `alloc_frame`: the frame is handed out as it is.
pub open spec fn alloc_spec(v: MmView) -> (MmView, Option<int>) {
    match next_free(v.used, v.next as int) {
        None => (v, None),
        Some(idx) => (MmView {
            used: after_alloc(v.used, idx),
            next: (idx + 1) as nat,
            ..v
        }, Some(frame_addr(idx))),
    }
}

/// Effect of `get_or_alloc_table_with`: follow entry `idx` of table `t`, or
/// install a fresh zeroed table there when the entry is invalid.
pub open spec fn goa_spec(v: MmView, t: int, idx: int, user: bool) -> (MmView, Option<int>) {
    let e = entry_at(v.mem, t, idx);
    if pte_valid(e) {
        if pte_table(e) { (v, Some(desc_addr(e))) } else { (v, None) }
    } else {
        let (v1, f) = alloc_zeroed_spec(v);
        match f {
            None => (v1, None),
            Some(f) => (MmView { mem: write_word(v1.mem, t + idx * 8, table_desc(user, f)), ..v1 }, Some(f)),
        }
    }
}

/// A table descriptor at entry `idx` of `t` names an address a `usize` can hold.
pub open spec fn follow_fits(v: MmView, t: int, idx: int) -> bool {
    let e = entry_at(v.mem, t, idx);
    pte_valid(e) && pte_table(e) ==> desc_addr(e) <= usize::MAX
}

impl MemoryManager {
    pub closed spec fn wf(&self) -> bool {
        &&& self.frames.wf()
        &&& self.mem.wf()
        &&& self.mem.view().len() == RAM_WORDS
    }

    /// Every frame free, RAM zeroed, no kernel root table yet.
    pub fn new() -> (r: Self)
        ensures
            r.wf(),
            r@.used == Seq::new(TOTAL_FRAMES as nat, |i: int| false),
            r@.next == 0,
            r@.mem == Seq::new(RAM_WORDS as nat, |i: int| 0u64),
            r@.kernel_table == 0,
    {
        MemoryManager { frames: FrameAllocator::new(), mem: PhysMem::new(), kernel_table: 0 }
    }

    /// Marks the frames of the kernel image as allocated (see [`FrameAllocator::init`]).
    pub fn init_frames(&mut self, kernel_end: usize)
        requires
            old(self).wf(),
            RAM_START <= kernel_end <= RAM_START + RAM_SIZE,
        ensures
            final(self).wf(),
            final(self)@.mem == old(self)@.mem,
            final(self)@.kernel_table == old(self)@.kernel_table,
            final(self)@.next == (kernel_end - RAM_START + PAGE_SIZE - 1) / (PAGE_SIZE as int),
            final(self)@.used == Seq::new(TOTAL_FRAMES as nat, |i: int|
                old(self)@.used[i] || i < final(self)@.next),
    {
        self.frames.init(kernel_end);
    }

    /// The root table of the kernel's own mappings (`0` before one is installed).
    pub fn kernel_page_table(&self) -> (r: usize)
        ensures
            r == self@.kernel_table,
    {
        self.kernel_table
    }

    /// Installs `table` as the kernel root table (the boot loader's `TTBR0_EL1`).
    pub fn init_from_boot(&mut self, table: usize)
        ensures
            final(self).wf() == old(self).wf(),
            final(self)@ == (MmView { kernel_table: table, ..old(self)@ }),
    {
        self.kernel_table = table;
    }

    /// RAM holds `RAM_WORDS` words and the allocator tracks every frame.
    pub proof fn lemma_mem_len(&self)
        requires
            self.wf(),
        ensures
            self@.mem.len() == RAM_WORDS,
            self@.used.len() == TOTAL_FRAMES,
            self@.next <= TOTAL_FRAMES,
    {
        self.frames.lemma_wf();
    }

    /// Reads the 64-bit word at physical address `paddr`.
    pub fn read_u64(&self, paddr: usize) -> (r: u64)
        requires
            self.wf(),
            word_in_ram(paddr as int),
        ensures
            r == read_word(self@.mem, paddr as int),
    {
        self.mem.read((paddr - RAM_START) / 8)
    }

    /// Writes the 64-bit word at physical address `paddr`.
    pub fn write_u64(&mut self, paddr: usize, v: u64)
        requires
            old(self).wf(),
            word_in_ram(paddr as int),
        ensures
            final(self).wf(),
            final(self)@ == (MmView { mem: write_word(old(self)@.mem, paddr as int, v), ..old(self)@ }),
    {
        self.mem.write((paddr - RAM_START) / 8, v);
    }

    /// Whether the frame holding `paddr` is allocated.
    pub fn frame_in_use(&self, paddr: usize) -> (r: bool)
        requires
            self.wf(),
            RAM_START <= paddr < RAM_START + RAM_SIZE,
        ensures
            r == self@.used[(paddr - RAM_START) / (PAGE_SIZE as int)],
    {
        self.frames.is_set((paddr - RAM_START) / PAGE_SIZE)
    }

    /// Allocates a frame without clearing it (see [`FrameAllocator::alloc_frame`]).
    pub fn alloc_frame(&mut self) -> (r: Option<usize>)
        requires
            old(self).wf(),
        ensures
            final(self).wf(),
            (final(self)@, opt_int(r)) == alloc_spec(old(self)@),
            r is None <==> all_used(old(self)@.used),
    {
        self.frames.alloc_frame()
    }

    /// Releases the frame at `paddr`; an address outside RAM or not frame aligned
    /// is ignored (see [`FrameAllocator::free_frame`]).
    pub fn free_frame(&mut self, paddr: usize)
        requires
            old(self).wf(),
        ensures
            final(self).wf(),
            final(self)@ == (MmView { used: after_free(old(self)@.used, paddr as int), ..old(self)@ }),
    {
        self.frames.free_frame(paddr)
    }

    /// Allocates a frame and clears it.
    pub fn alloc_zeroed_frame(&mut self) -> (r: Option<usize>)
        requires
            old(self).wf(),
        ensures
            final(self).wf(),
            (final(self)@, opt_int(r)) == alloc_zeroed_spec(old(self)@),
            r is None <==> all_used(old(self)@.used),
            r matches Some(p) ==> table_in_ram(p as int),
    {
        let p = self.frames.alloc_frame();
        match p {
            None => None,
            Some(paddr) => {
                let ghost idx = next_free(old(self)@.used, old(self)@.next as int)->0;
                proof {
                    crate::frame_alloc::law_frame_addr_in_ram(idx);
                    assert(frame_addr(idx) % 4096 == 0) by {
                        assert(frame_addr(idx) == idx * 4096 + 4096 * 0x40000);
                        vstd::arithmetic::div_mod::lemma_mod_multiples_vanish(0x40000, idx * 4096, 4096);
                        assert((idx * 4096) % 4096 == 0) by (nonlinear_arith) requires 0 <= idx;
                    }
                }
                let f = (paddr - RAM_START) / PAGE_SIZE;
                assert(f == idx) by (nonlinear_arith)
                    requires f == (paddr - RAM_START) / 4096, paddr == RAM_START + idx * 4096, RAM_START == 0x4000_0000;
                self.mem.zero_frame(f);
                Some(paddr)
            },
        }
    }

    /// A fresh, empty root table.
    pub fn create_empty_page_table(&mut self) -> (r: Option<usize>)
        requires
            old(self).wf(),
        ensures
            final(self).wf(),
            (final(self)@, opt_int(r)) == alloc_zeroed_spec(old(self)@),
    {
        self.alloc_zeroed_frame()
    }

    /// Follows entry `idx` of table `table` to the next-level table, installing a
    /// fresh zeroed one (with a user or kernel descriptor) when the entry is invalid.
    /// `None` when the entry maps a block or no frame is left.
    pub fn get_or_alloc_table_with(&mut self, table: usize, idx: usize, user: bool) -> (r: Option<usize>)
        requires
            old(self).wf(),
            table_in_ram(table as int),
            idx < ENTRIES_PER_TABLE,
            follow_fits(old(self)@, table as int, idx as int),
        ensures
            final(self).wf(),
            (final(self)@, opt_int(r)) == goa_spec(old(self)@, table as int, idx as int, user),
    {
        let entry_addr = table + idx * 8;
        let entry = self.read_u64(entry_addr);
        if entry & PTE_VALID != 0 {
            if entry & PTE_TABLE != 0 {
                Some(entry_to_paddr(entry))
            } else {
                None
            }
        } else {
            let new_frame = match self.alloc_zeroed_frame() {
                Some(f) => f,
                None => {
                    return None;
                },
            };
            let new_entry = make_desc(user, new_frame);
            self.write_u64(entry_addr, new_entry);
            Some(new_frame)
        }
    }

    /// Kernel flavour of [`MemoryManager::get_or_alloc_table_with`].
    pub fn get_or_alloc_table(&mut self, table: usize, idx: usize) -> (r: Option<usize>)
        requires
            old(self).wf(),
            table_in_ram(table as int),
            idx < ENTRIES_PER_TABLE,
            follow_fits(old(self)@, table as int, idx as int),
        ensures
            final(self).wf(),
            (final(self)@, opt_int(r)) == goa_spec(old(self)@, table as int, idx as int, false),
    {
        self.get_or_alloc_table_with(table, idx, false)
    }
}


/// Entry `i` of a table in RAM lies at word `word_index(t) + i`.
pub proof fn lemma_word_index_offset(t: int, i: int)
    requires
        table_in_ram(t),
        0 <= i < 512,
    ensures
        word_in_ram(t + i * 8),
        word_index(t + i * 8) == word_index(t) + i,
        0 <= word_index(t) + i < RAM_WORDS,
{
    assert((t - RAM_START + i * 8) / 8 == (t - RAM_START) / 8 + i) by (nonlinear_arith)
        requires (t - RAM_START) % 8 == 0;
    assert((t + i * 8) % 8 == 0) by (nonlinear_arith)
        requires t % 8 == 0;
}


} // verus!
