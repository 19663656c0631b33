//! The translation-table walk for a virtual address, and the frame reasoning
//! that relates walks in two memories.
use vstd::prelude::*;
use crate::frame_alloc::{PAGE_SIZE, RAM_START, TOTAL_FRAMES, frame_addr, next_free, first_free_step, cyclic};
use crate::phys_mem::zero_page;
use crate::mm::{
    MmView, alloc_zeroed_spec, desc_addr, entry_at, level_span, lemma_word_index_offset, pte_table, pte_valid, table_in_ram,
    va_index, word_index,
};

verus! {

/// Index of the frame holding address `t`.
pub open spec fn frame_index(t: int) -> int {
    (t - RAM_START) / (PAGE_SIZE as int)
}

/// The frame at `t` is marked allocated.
pub open spec fn frame_used(v: MmView, t: int) -> bool {
    v.used[frame_index(t)]
}

/// `m1` and `m2` hold the same 512 words in the frame at `t`.
pub open spec fn agree_on(m1: Seq<u64>, m2: Seq<u64>, t: int) -> bool {
    forall|k: int| 0 <= k < 512 ==> #[trigger] m1[word_index(t) + k] == m2[word_index(t) + k]
}

/// A table descriptor.
pub open spec fn is_table_desc(e: u64) -> bool {
    pte_valid(e) && pte_table(e)
}

/// The table reached from `t` at level `from` after following the table
/// descriptors for `vaddr` down to level `to`, as the MMU walks it.
pub open spec fn walk(mem: Seq<u64>, t: int, vaddr: int, from: int, to: int) -> Option<int>
    decreases to - from,
{
    if from >= to {
        Some(t)
    } else {
        let e = entry_at(mem, t, va_index(vaddr, from));
        if is_table_desc(e) { walk(mem, desc_addr(e), vaddr, from + 1, to) } else { None }
    }
}

/// The tables whose entries that walk reads.
pub open spec fn walk_frames(mem: Seq<u64>, t: int, vaddr: int, from: int, to: int) -> Set<int>
    decreases to - from,
{
    if from >= to {
        Set::empty()
    } else {
        let e = entry_at(mem, t, va_index(vaddr, from));
        if is_table_desc(e) {
            walk_frames(mem, desc_addr(e), vaddr, from + 1, to).insert(t)
        } else {
            set![t]
        }
    }
}

/// The descriptor a walk for `vaddr` finds at level 3, if the walk gets there.
pub open spec fn leaf_entry(mem: Seq<u64>, root: int, vaddr: int) -> Option<u64> {
    match walk(mem, root, vaddr, 0, 3) {
        Some(l3) => Some(entry_at(mem, l3, va_index(vaddr, 3))),
        None => None,
    }
}

/// Bits `[47:12]` of a page descriptor: the 4 KiB page it maps.
pub open spec fn page_out_addr(e: u64) -> int {
    (e as int / 0x1000) % 0x10_0000_0000 * 0x1000
}

/// Bits `[47:21]` of a block descriptor: the 2 MiB block it maps.
pub open spec fn block_out_addr(e: u64) -> int {
    (e as int / 0x20_0000) % 0x800_0000 * 0x20_0000
}

/// The address the MMU gives `vaddr` through the tables at `root`: a 2 MiB
/// block at level 2 or a 4 KiB page at level 3; `None` where nothing is mapped.
pub open spec fn translate(mem: Seq<u64>, root: int, vaddr: int) -> Option<int> {
    match walk(mem, root, vaddr, 0, 2) {
        None => None,
        Some(l2) => {
            let e2 = entry_at(mem, l2, va_index(vaddr, 2));
            if !pte_valid(e2) {
                None
            } else if !pte_table(e2) {
                Some(block_out_addr(e2) + vaddr % 0x20_0000)
            } else {
                let e3 = entry_at(mem, desc_addr(e2), va_index(vaddr, 3));
                if pte_valid(e3) && pte_table(e3) { Some(page_out_addr(e3) + vaddr % 0x1000) } else { None }
            }
        },
    }
}

/// The descriptor [`translate`] takes `vaddr`'s output address and attributes
/// from: the block at level 2 or the page at level 3.
pub open spec fn translate_desc(mem: Seq<u64>, root: int, vaddr: int) -> Option<u64> {
    match walk(mem, root, vaddr, 0, 2) {
        None => None,
        Some(l2) => {
            let e2 = entry_at(mem, l2, va_index(vaddr, 2));
            if !pte_valid(e2) {
                None
            } else if !pte_table(e2) {
                Some(e2)
            } else {
                let e3 = entry_at(mem, desc_addr(e2), va_index(vaddr, 3));
                if pte_valid(e3) && pte_table(e3) { Some(e3) } else { None }
            }
        },
    }
}

/// Frame arithmetic: a table in RAM starts at word `512 * frame_index(t)`.
pub proof fn lemma_frame_words(t: int)
    requires
        table_in_ram(t),
    ensures
        word_index(t) == 512 * frame_index(t),
        0 <= frame_index(t) < TOTAL_FRAMES,
        frame_addr(frame_index(t)) == t,
{
    let q = (t - RAM_START) / 4096;
    assert(t - RAM_START == 4096 * q) by (nonlinear_arith)
        requires (t - RAM_START) % 4096 == 0, q == (t - RAM_START) / 4096, t >= RAM_START;
    assert((4096 * q) / 8 == 512 * q) by (nonlinear_arith);
}

/// Words of distinct tables never coincide.
pub proof fn lemma_frames_disjoint(a: int, b: int, i: int, j: int)
    requires
        table_in_ram(a),
        table_in_ram(b),
        a != b,
        0 <= i < 512,
        0 <= j < 512,
    ensures
        word_index(a) + i != word_index(b) + j,
{
    lemma_frame_words(a);
    lemma_frame_words(b);
    let qa = frame_index(a);
    let qb = frame_index(b);
    if qa == qb {
        assert(a == b);
    }
    assert(512 * qa + i != 512 * qb + j) by (nonlinear_arith)
        requires qa != qb, 0 <= i < 512, 0 <= j < 512;
}

/// Word `word_index(t) + k` of a table lies in frame `frame_index(t)`.
pub proof fn lemma_word_in_frame(t: int, k: int)
    requires
        table_in_ram(t),
        0 <= k < 512,
    ensures
        (word_index(t) + k) / 512 == frame_index(t),
{
    lemma_frame_words(t);
    let q = frame_index(t);
    assert((512 * q + k) / 512 == q) by (nonlinear_arith)
        requires 0 <= k < 512;
}

/// A walk reads only the tables in `walk_frames`: memories that agree on them
/// give the same walk.
pub proof fn lemma_walk_agree(m1: Seq<u64>, m2: Seq<u64>, t: int, vaddr: int, from: int, to: int)
    requires
        forall|s: int| #[trigger] walk_frames(m1, t, vaddr, from, to).contains(s) ==> table_in_ram(s) && agree_on(m1, m2, s),
        0 <= from,
        to <= 4,
    ensures
        walk(m2, t, vaddr, from, to) == walk(m1, t, vaddr, from, to),
        walk_frames(m2, t, vaddr, from, to) == walk_frames(m1, t, vaddr, from, to),
    decreases to - from,
{
    if from < to {
        assert(walk_frames(m1, t, vaddr, from, to).contains(t));
        let i = va_index(vaddr, from);
        assert(0 <= i < 512) by {
            assert(level_span(from) > 0);
        }
        assert(m1[word_index(t) + i] == m2[word_index(t) + i]);
        lemma_word_index_offset(t, i);
        let e = entry_at(m1, t, i);
        assert(entry_at(m2, t, i) == e);
        if is_table_desc(e) {
            assert forall|s: int| #[trigger] walk_frames(m1, desc_addr(e), vaddr, from + 1, to).contains(s)
                implies table_in_ram(s) && agree_on(m1, m2, s) by {
                assert(walk_frames(m1, t, vaddr, from, to).contains(s));
            }
            lemma_walk_agree(m1, m2, desc_addr(e), vaddr, from + 1, to);
        }
    }
}


/// The allocator hands out a frame that was free; it is in RAM, it is marked
/// allocated afterwards, every frame allocated before stays so, and RAM changes
/// only by clearing that frame.
pub proof fn lemma_alloc_fresh(v: MmView)
    requires
        v.used.len() == TOTAL_FRAMES,
        v.next <= TOTAL_FRAMES,
    ensures
        ({
            let (v1, r) = alloc_zeroed_spec(v);
            &&& v1.used.len() == TOTAL_FRAMES
            &&& v1.next <= TOTAL_FRAMES
            &&& v1.mem.len() == v.mem.len()
            &&& v1.kernel_table == v.kernel_table
            &&& forall|i: int| 0 <= i < TOTAL_FRAMES && #[trigger] v.used[i] ==> v1.used[i]
            &&& r is None ==> v1 == v
            &&& r matches Some(f) ==> {
                &&& table_in_ram(f)
                &&& !frame_used(v, f)
                &&& frame_used(v1, f)
                &&& v1.mem == zero_page(v.mem, frame_index(f))
            }
        }),
{
    let (v1, r) = alloc_zeroed_spec(v);
    if let Some(idx) = next_free(v.used, v.next as int) {
        let k = choose|k: int| #[trigger] first_free_step(v.used, v.next as int, k);
        assert(0 <= cyclic(v.next as int, k) < TOTAL_FRAMES);
        lemma_frame_addr_index(idx);
    }
}

/// `frame_addr` and `frame_index` are inverse on the frames of RAM.
pub proof fn lemma_frame_addr_index(i: int)
    requires
        0 <= i < TOTAL_FRAMES,
    ensures
        table_in_ram(frame_addr(i)),
        frame_index(frame_addr(i)) == i,
{
    assert((i * 4096) / 4096 == i && (i * 4096) % 4096 == 0) by (nonlinear_arith)
        requires 0 <= i;
    assert(frame_addr(i) % 4096 == 0) by {
        assert(frame_addr(i) == i * 4096 + 4096 * 0x40000);
        vstd::arithmetic::div_mod::lemma_mod_multiples_vanish(0x40000, i * 4096, 4096);
    }
}

} // verus!
