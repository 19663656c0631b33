//! What the MMU sees after `map_user_page`: the walk for the mapped address
//! ends at the page descriptor that was written.
use vstd::prelude::*;
use crate::frame_alloc::TOTAL_FRAMES;
use crate::phys_mem::RAM_WORDS;
use crate::pt_walk::{
    agree_on, block_out_addr, frame_index, frame_used, is_table_desc, leaf_entry, lemma_alloc_fresh, lemma_frame_words,
    lemma_frames_disjoint, lemma_word_in_frame, translate, walk,
};
use crate::pt_kernel::fresh_path;
use crate::pt_user::{fill_split, lemma_user_entry_bits, law_split_keeps_block, map_user_spec, split_desc, user_entry, user_l2_spec, user_level_spec};
use crate::mm::{
    alloc_zeroed_spec, desc_addr, entry_at, goa_spec, lemma_table_desc, lemma_word_index_offset, lemma_zero_invalid,
    leaf_desc, pte_table, pte_valid, table_in_ram, user_table_desc, table_desc, va_index, word_index, write_word, MmView,
    PTE_PAGE, PTE_VALID, TABLE_APTABLE0, TABLE_UXNTABLE, frame_base,
};

verus! {

/// One level of `map_user_page`: levels 0 and 1 follow or create a table; level 2
/// may also split a block.
pub open spec fn user_step(v: MmView, t: int, idx: int, level: int) -> (MmView, Option<int>) {
    if level < 2 { user_level_spec(v, t, idx) } else { user_l2_spec(v, t, idx) }
}

/// A table descriptor that lets EL0 reach its subtree: neither APTable[0] nor
/// UXNTable is set.
pub open spec fn el0_open(e: u64) -> bool {
    e & (TABLE_APTABLE0 | TABLE_UXNTABLE) == 0
}

/// The descriptors `map_user_page` leaves on its walk are open to EL0.
proof fn lemma_user_descs_open(e: u64, f: int)
    requires
        table_in_ram(f),
    ensures
        el0_open(user_entry(e)),
        el0_open(user_table_desc(f)),
{
    lemma_user_entry_bits(e);
    let b = frame_base(f) as u64;
    assert(b < 0x1_0000_0000);
    let d = user_table_desc(f);
    assert(d == b | 1u64 | 2u64);
    assert(d & (0x2000_0000_0000_0000u64 | 0x1000_0000_0000_0000u64) == 0) by (bit_vector)
        requires b < 0x1_0000_0000, d == b | 1u64 | 2u64;
}

/// Lifting the EL0 restrictions of a table descriptor keeps it a table
/// descriptor for the same table.
proof fn lemma_user_entry(e: u64)
    requires
        is_table_desc(e),
    ensures
        is_table_desc(user_entry(e)),
        desc_addr(user_entry(e)) == desc_addr(e),
{
    lemma_user_entry_bits(e);
}

/// A write into a table of `above` leaves a fresh path below it fresh.
proof fn lemma_fresh_path_write(v: MmView, x: int, vaddr: int, from: int, to: int, above: Set<int>, t: int, i: int, d: u64)
    requires
        v.mem.len() == RAM_WORDS,
        fresh_path(v, x, vaddr, from, to, above),
        above.contains(t),
        0 <= i < 512,
        0 <= from,
    ensures
        fresh_path(MmView { mem: write_word(v.mem, t + i * 8, d), ..v }, x, vaddr, from, to, above),
    decreases to - from,
{
    let v1 = MmView { mem: write_word(v.mem, t + i * 8, d), ..v };
    assert(table_in_ram(t));
    if from < to {
        let j = va_index(vaddr, from);
        lemma_word_index_offset(x, j);
        lemma_word_index_offset(t, i);
        lemma_frames_disjoint(x, t, j, i);
        assert(entry_at(v1.mem, x, j) == entry_at(v.mem, x, j));
        let e = entry_at(v.mem, x, j);
        if is_table_desc(e) {
            lemma_fresh_path_write(v, desc_addr(e), vaddr, from + 1, to, above.insert(x), t, i, d);
        }
    }
}

/// One level of `map_user_page` on a fresh path: the tables above keep their
/// contents, allocated frames stay allocated, and the entry at `t` now names the
/// next table, whose own path is fresh.
proof fn lemma_user_step(v: MmView, t: int, vaddr: int, level: int, above: Set<int>)
    requires
        v.used.len() == TOTAL_FRAMES,
        v.next <= TOTAL_FRAMES,
        v.mem.len() == RAM_WORDS,
        0 <= level <= 2,
        fresh_path(v, t, vaddr, level, 3, above),
    ensures
        ({
            let (v1, r) = user_step(v, t, va_index(vaddr, level), level);
            &&& v1.used.len() == TOTAL_FRAMES
            &&& v1.next <= TOTAL_FRAMES
            &&& v1.mem.len() == RAM_WORDS
            &&& forall|s: int| #[trigger] above.contains(s) ==> agree_on(v.mem, v1.mem, s)
            &&& r matches Some(x) ==> {
                &&& is_table_desc(entry_at(v1.mem, t, va_index(vaddr, level)))
                &&& el0_open(entry_at(v1.mem, t, va_index(vaddr, level)))
                &&& desc_addr(entry_at(v1.mem, t, va_index(vaddr, level))) == x
                &&& fresh_path(v1, x, vaddr, level + 1, 3, above.insert(t))
            }
        }),
{
    let idx = va_index(vaddr, level);
    let e = entry_at(v.mem, t, idx);
    let above2 = above.insert(t);
    lemma_word_index_offset(t, idx);
    if is_table_desc(e) {
        lemma_user_entry(e);
        assert(fresh_path(v, desc_addr(e), vaddr, level + 1, 3, above2));
        let v1 = MmView { mem: write_word(v.mem, t + idx * 8, user_entry(e)), ..v };
        assert(user_step(v, t, idx, level) == (v1, Some(desc_addr(e))));
        assert forall|s: int| #[trigger] above.contains(s) implies agree_on(v.mem, v1.mem, s) by {
            assert forall|k: int| 0 <= k < 512 implies #[trigger] v.mem[word_index(s) + k] == v1.mem[word_index(s) + k] by {
                lemma_frames_disjoint(s, t, k, idx);
            }
        }
        assert(entry_at(v1.mem, t, idx) == user_entry(e));
        lemma_user_descs_open(e, t);
        lemma_fresh_path_write(v, desc_addr(e), vaddr, level + 1, 3, above2, t, idx, user_entry(e));
        return;
    }
    let fresh_table_case = if level < 2 { e == 0 } else { true };
    if !fresh_table_case {
        assert(user_step(v, t, idx, level).1 is None);
        return;
    }
    if level == 2 && !pte_valid(e) {
        assert(user_step(v, t, idx, level) == goa_spec(v, t, idx, true));
    }
    lemma_alloc_fresh(v);
    let (v1, f) = alloc_zeroed_spec(v);
    if f is None {
        return;
    }
    let f = f->0;
    lemma_table_desc(true, f);
    assert(table_desc(true, f) == user_table_desc(f));
    lemma_frame_words(f);
    let split = level == 2 && pte_valid(e);
    let m1 = if split { fill_split(v1.mem, f, e) } else { v1.mem };
    let v2 = MmView { mem: write_word(m1, t + idx * 8, user_table_desc(f)), ..v1 };
    assert(user_step(v, t, idx, level) == (v2, Some(f)));
    // The fresh frame is none of the tables above, nor `t`.
    assert forall|s: int| #[trigger] above2.contains(s) implies s != f && table_in_ram(s) && frame_used(v2, s) by {
        if s == f {
            assert(frame_used(v, s));
        }
        lemma_frame_words(s);
    }
    assert forall|s: int| #[trigger] above.contains(s) implies agree_on(v.mem, v2.mem, s) by {
        lemma_frame_words(s);
        assert forall|k: int| 0 <= k < 512 implies #[trigger] v.mem[word_index(s) + k] == v2.mem[word_index(s) + k] by {
            lemma_word_in_frame(s, k);
            lemma_frames_disjoint(s, t, k, idx);
            assert(frame_index(s) != frame_index(f)) by {
                if frame_index(s) == frame_index(f) {
                    lemma_frame_words(f);
                }
            }
            assert(!(0 <= word_index(s) + k - word_index(f) < 512)) by {
                lemma_frame_words(s);
                lemma_frame_words(f);
                let a = frame_index(s);
                let b = frame_index(f);
                assert(!(0 <= 512 * a + k - 512 * b < 512)) by (nonlinear_arith)
                    requires a != b, 0 <= k < 512;
            }
        }
    }
    assert(entry_at(v2.mem, t, idx) == user_table_desc(f));
    lemma_user_descs_open(e, f);
    if level + 1 < 3 {
        let j = va_index(vaddr, level + 1);
        lemma_word_index_offset(f, j);
        lemma_word_in_frame(f, j);
        lemma_frames_disjoint(t, f, idx, j);
        assert(!split);
        assert(entry_at(v2.mem, f, j) == 0);
        lemma_zero_invalid();
    }
    assert(fresh_path(v2, f, vaddr, level + 1, 3, above2));
}

/// The walk through three tables whose entries name each other, after a last
/// write into the third one.
proof fn lemma_user_walk(
    m1: Seq<u64>, m2: Seq<u64>, m3: Seq<u64>,
    t: int, l1: int, l2: int, l3: int, vaddr: int, d: u64,
)
    requires
        m1.len() == RAM_WORDS,
        table_in_ram(t),
        table_in_ram(l1),
        table_in_ram(l2),
        table_in_ram(l3),
        l3 != t,
        l3 != l1,
        l3 != l2,
        agree_on(m1, m2, t),
        agree_on(m2, m3, t),
        agree_on(m2, m3, l1),
        is_table_desc(entry_at(m1, t, va_index(vaddr, 0))),
        desc_addr(entry_at(m1, t, va_index(vaddr, 0))) == l1,
        is_table_desc(entry_at(m2, l1, va_index(vaddr, 1))),
        desc_addr(entry_at(m2, l1, va_index(vaddr, 1))) == l2,
        is_table_desc(entry_at(m3, l2, va_index(vaddr, 2))),
        desc_addr(entry_at(m3, l2, va_index(vaddr, 2))) == l3,
        m3.len() == RAM_WORDS,
    ensures
        leaf_entry(write_word(m3, l3 + va_index(vaddr, 3) * 8, d), t, vaddr) == Some(d),
        ({
            let m4 = write_word(m3, l3 + va_index(vaddr, 3) * 8, d);
            &&& walk(m4, t, vaddr, 0, 0) == Some(t)
            &&& walk(m4, t, vaddr, 0, 1) == Some(l1)
            &&& walk(m4, t, vaddr, 0, 2) == Some(l2)
            &&& entry_at(m4, t, va_index(vaddr, 0)) == entry_at(m1, t, va_index(vaddr, 0))
            &&& entry_at(m4, l1, va_index(vaddr, 1)) == entry_at(m2, l1, va_index(vaddr, 1))
            &&& entry_at(m4, l2, va_index(vaddr, 2)) == entry_at(m3, l2, va_index(vaddr, 2))
        }),
{
    let i0 = va_index(vaddr, 0);
    let i1 = va_index(vaddr, 1);
    let i2 = va_index(vaddr, 2);
    let i3 = va_index(vaddr, 3);
    let m4 = write_word(m3, l3 + i3 * 8, d);
    lemma_word_index_offset(l3, i3);
    lemma_word_index_offset(t, i0);
    lemma_word_index_offset(l1, i1);
    lemma_word_index_offset(l2, i2);
    lemma_frames_disjoint(t, l3, i0, i3);
    lemma_frames_disjoint(l1, l3, i1, i3);
    lemma_frames_disjoint(l2, l3, i2, i3);
    assert(m1[word_index(t) + i0] == m2[word_index(t) + i0]);
    assert(m2[word_index(t) + i0] == m3[word_index(t) + i0]);
    assert(m2[word_index(l1) + i1] == m3[word_index(l1) + i1]);
    assert(entry_at(m4, t, i0) == entry_at(m1, t, i0));
    assert(entry_at(m4, l1, i1) == entry_at(m2, l1, i1));
    assert(entry_at(m4, l2, i2) == entry_at(m3, l2, i2));
    assert(entry_at(m4, l3, i3) == d);
    assert(walk(m4, l3, vaddr, 3, 3) == Some(l3));
    assert(walk(m4, l2, vaddr, 2, 3) == Some(l3));
    assert(walk(m4, l1, vaddr, 1, 3) == Some(l3));
    assert(walk(m4, t, vaddr, 0, 3) == Some(l3));
    assert(walk(m4, l1, vaddr, 1, 1) == Some(l1));
    assert(walk(m4, t, vaddr, 0, 1) == Some(l1));
    assert(walk(m4, l2, vaddr, 2, 2) == Some(l2));
    assert(walk(m4, l1, vaddr, 1, 2) == Some(l2));
    assert(walk(m4, t, vaddr, 0, 2) == Some(l2));
}

/// Mapping a user page makes the walk for `vaddr` end at a level-3 entry that
/// maps `paddr` with `attr`, as long as the tables already on the way are
/// distinct allocated frames.
pub proof fn law_map_user_page_maps(v: MmView, t: int, vaddr: int, paddr: int, attr: u64)
    requires
        v.used.len() == TOTAL_FRAMES,
        v.next <= TOTAL_FRAMES,
        v.mem.len() == RAM_WORDS,
        fresh_path(v, t, vaddr, 0, 3, Set::empty()),
    ensures
        ({
            let (v4, ok) = map_user_spec(v, t, vaddr, paddr, attr);
            ok ==> leaf_entry(v4.mem, t, vaddr) == Some(leaf_desc(paddr, PTE_VALID | PTE_PAGE | attr))
        }),
{
    let a0 = Set::<int>::empty();
    lemma_user_step(v, t, vaddr, 0, a0);
    let (v1, r1) = user_level_spec(v, t, va_index(vaddr, 0));
    if r1 is None {
        return;
    }
    let l1 = r1->0;
    let a1 = a0.insert(t);
    lemma_user_step(v1, l1, vaddr, 1, a1);
    let (v2, r2) = user_level_spec(v1, l1, va_index(vaddr, 1));
    if r2 is None {
        return;
    }
    let l2 = r2->0;
    let a2 = a1.insert(l1);
    lemma_user_step(v2, l2, vaddr, 2, a2);
    let (v3, r3) = user_l2_spec(v2, l2, va_index(vaddr, 2));
    if r3 is None {
        return;
    }
    let l3 = r3->0;
    assert(a1.contains(t));
    assert(a2.contains(t) && a2.contains(l1));
    lemma_user_walk(v1.mem, v2.mem, v3.mem, t, l1, l2, l3, vaddr, leaf_desc(paddr, PTE_VALID | PTE_PAGE | attr));
}

/// A mapped user page is reachable from EL0: none of the three table
/// descriptors on its walk keeps APTable[0] or UXNTable, as long as the tables
/// already on the way are distinct allocated frames.
pub proof fn law_map_user_page_opens_walk(v: MmView, t: int, vaddr: int, paddr: int, attr: u64)
    requires
        v.used.len() == TOTAL_FRAMES,
        v.next <= TOTAL_FRAMES,
        v.mem.len() == RAM_WORDS,
        fresh_path(v, t, vaddr, 0, 3, Set::empty()),
    ensures
        ({
            let (v4, ok) = map_user_spec(v, t, vaddr, paddr, attr);
            ok ==> forall|level: int| 0 <= level < 3 ==> {
                &&& #[trigger] walk(v4.mem, t, vaddr, 0, level) is Some
                &&& el0_open(entry_at(v4.mem, walk(v4.mem, t, vaddr, 0, level)->0, va_index(vaddr, level)))
            }
        }),
{
    let a0 = Set::<int>::empty();
    lemma_user_step(v, t, vaddr, 0, a0);
    let (v1, r1) = user_level_spec(v, t, va_index(vaddr, 0));
    if r1 is None {
        return;
    }
    let l1 = r1->0;
    let a1 = a0.insert(t);
    lemma_user_step(v1, l1, vaddr, 1, a1);
    let (v2, r2) = user_level_spec(v1, l1, va_index(vaddr, 1));
    if r2 is None {
        return;
    }
    let l2 = r2->0;
    let a2 = a1.insert(l1);
    lemma_user_step(v2, l2, vaddr, 2, a2);
    let (v3, r3) = user_l2_spec(v2, l2, va_index(vaddr, 2));
    if r3 is None {
        return;
    }
    let l3 = r3->0;
    assert(a1.contains(t));
    assert(a2.contains(t) && a2.contains(l1));
    let d = leaf_desc(paddr, PTE_VALID | PTE_PAGE | attr);
    lemma_user_walk(v1.mem, v2.mem, v3.mem, t, l1, l2, l3, vaddr, d);
    let m4 = write_word(v3.mem, l3 + va_index(vaddr, 3) * 8, d);
    assert(map_user_spec(v, t, vaddr, paddr, attr) == (MmView { mem: m4, ..v3 }, true));
}

/// Addresses in one 2 MiB block share their table indices at levels 0 to 2.
proof fn lemma_same_block_indices(a: int, b: int)
    requires
        0 <= a,
        0 <= b,
        a / 0x20_0000 == b / 0x20_0000,
    ensures
        va_index(a, 0) == va_index(b, 0),
        va_index(a, 1) == va_index(b, 1),
        va_index(a, 2) == va_index(b, 2),
{
    vstd::arithmetic::div_mod::lemma_div_denominator(a, 0x20_0000, 0x4_0000);
    vstd::arithmetic::div_mod::lemma_div_denominator(b, 0x20_0000, 0x4_0000);
    vstd::arithmetic::div_mod::lemma_div_denominator(a, 0x20_0000, 0x200);
    vstd::arithmetic::div_mod::lemma_div_denominator(b, 0x20_0000, 0x200);
}

/// The level-2 step of `map_user_page` on a block: the fresh table holds the
/// block's 512 pages and the level-2 entry names it; the tables `a` and `b`
/// above keep their contents.
proof fn lemma_split_step(v: MmView, l2: int, i2: int, a: int, b: int)
    requires
        v.used.len() == TOTAL_FRAMES,
        v.next <= TOTAL_FRAMES,
        v.mem.len() == RAM_WORDS,
        table_in_ram(l2) && table_in_ram(a) && table_in_ram(b),
        frame_used(v, l2) && frame_used(v, a) && frame_used(v, b),
        l2 != a && l2 != b,
        0 <= i2 < 512,
        pte_valid(entry_at(v.mem, l2, i2)),
        !pte_table(entry_at(v.mem, l2, i2)),
    ensures
        ({
            let e2 = entry_at(v.mem, l2, i2);
            let (v3, r) = user_l2_spec(v, l2, i2);
            &&& v3.mem.len() == RAM_WORDS
            &&& r matches Some(f) ==> {
                &&& table_in_ram(f)
                &&& f != l2 && f != a && f != b
                &&& entry_at(v3.mem, l2, i2) == user_table_desc(f)
                &&& forall|j: int| 0 <= j < 512 ==> #[trigger] entry_at(v3.mem, f, j) == split_desc(e2, j)
                &&& agree_on(v.mem, v3.mem, a)
                &&& agree_on(v.mem, v3.mem, b)
            }
        }),
{
    let e2 = entry_at(v.mem, l2, i2);
    lemma_alloc_fresh(v);
    let (va, rf) = alloc_zeroed_spec(v);
    if rf is None {
        return;
    }
    let f = rf->0;
    lemma_frame_words(f);
    lemma_frame_words(l2);
    lemma_frame_words(a);
    lemma_frame_words(b);
    assert(f != l2 && f != a && f != b);
    let m3 = write_word(fill_split(va.mem, f, e2), l2 + i2 * 8, user_table_desc(f));
    assert(user_l2_spec(v, l2, i2) == (MmView { mem: m3, ..va }, Some(f)));
    lemma_word_index_offset(l2, i2);
    assert forall|j: int| 0 <= j < 512 implies #[trigger] entry_at(m3, f, j) == split_desc(e2, j) by {
        lemma_word_index_offset(f, j);
        lemma_frames_disjoint(f, l2, j, i2);
    }
    assert forall|s: int| s == a || s == b implies agree_on(v.mem, m3, s) by {
        lemma_frame_words(s);
        assert forall|k: int| 0 <= k < 512 implies #[trigger] v.mem[word_index(s) + k] == m3[word_index(s) + k] by {
            lemma_word_in_frame(s, k);
            let x = frame_index(s);
            let y = frame_index(f);
            assert(x != y);
            assert(!(0 <= 512 * x + k - 512 * y < 512)) by (nonlinear_arith)
                requires x != y, 0 <= k < 512;
            lemma_frames_disjoint(s, l2, k, i2);
        }
    }
}

/// A walk through two table descriptors reaches the same level-2 table for
/// addresses with the same indices at levels 0 and 1.
proof fn lemma_walk_two(m: Seq<u64>, t: int, l1: int, l2: int, va: int)
    requires
        is_table_desc(entry_at(m, t, va_index(va, 0))),
        desc_addr(entry_at(m, t, va_index(va, 0))) == l1,
        is_table_desc(entry_at(m, l1, va_index(va, 1))),
        desc_addr(entry_at(m, l1, va_index(va, 1))) == l2,
    ensures
        walk(m, t, va, 0, 2) == Some(l2),
{
    assert(walk(m, l2, va, 2, 2) == Some(l2));
    assert(walk(m, l1, va, 1, 2) == Some(l2));
}

/// Levels 0 and 1 of `map_user_page` along an existing walk to a level-2 table:
/// both entries lose their EL0 restrictions and are followed.
proof fn lemma_follow_two(v: MmView, t: int, vaddr: int)
    requires
        v.mem.len() == RAM_WORDS,
        fresh_path(v, t, vaddr, 0, 3, Set::empty()),
        walk(v.mem, t, vaddr, 0, 2) is Some,
    ensures
        ({
            let i0 = va_index(vaddr, 0);
            let i1 = va_index(vaddr, 1);
            let i2 = va_index(vaddr, 2);
            let e0 = entry_at(v.mem, t, i0);
            let l1 = desc_addr(e0);
            let e1 = entry_at(v.mem, l1, i1);
            let l2 = desc_addr(e1);
            let (v1, r1) = user_level_spec(v, t, i0);
            let (v2, r2) = user_level_spec(v1, l1, i1);
            &&& walk(v.mem, t, vaddr, 0, 2) == Some(l2)
            &&& is_table_desc(e0) && is_table_desc(e1)
            &&& r1 == Some(l1) && r2 == Some(l2)
            &&& t != l1 && l2 != t && l2 != l1
            &&& table_in_ram(t) && table_in_ram(l1) && table_in_ram(l2)
            &&& frame_used(v, t) && frame_used(v, l1) && frame_used(v, l2)
            &&& v2.used == v.used && v2.next == v.next && v2.mem.len() == RAM_WORDS
            &&& entry_at(v2.mem, t, i0) == user_entry(e0)
            &&& entry_at(v2.mem, l1, i1) == user_entry(e1)
            &&& entry_at(v2.mem, l2, i2) == entry_at(v.mem, l2, i2)
        }),
{
    let i0 = va_index(vaddr, 0);
    let i1 = va_index(vaddr, 1);
    let i2 = va_index(vaddr, 2);
    let e0 = entry_at(v.mem, t, i0);
    let l1 = desc_addr(e0);
    let e1 = entry_at(v.mem, l1, i1);
    let l2 = desc_addr(e1);
    assert(is_table_desc(e0));
    assert(walk(v.mem, l1, vaddr, 1, 2) is Some);
    assert(is_table_desc(e1));
    assert(walk(v.mem, l2, vaddr, 2, 2) == Some(l2));
    let a1 = Set::<int>::empty().insert(t);
    let a2 = a1.insert(l1);
    assert(fresh_path(v, l1, vaddr, 1, 3, a1));
    assert(fresh_path(v, l2, vaddr, 2, 3, a2));
    assert(a2.contains(t) && a2.contains(l1));
    lemma_word_index_offset(t, i0);
    lemma_word_index_offset(l1, i1);
    lemma_word_index_offset(l2, i2);
    lemma_user_entry(e0);
    lemma_user_entry(e1);
    let v1 = MmView { mem: write_word(v.mem, t + i0 * 8, user_entry(e0)), ..v };
    assert(user_level_spec(v, t, i0) == (v1, Some(l1)));
    lemma_frames_disjoint(l1, t, i1, i0);
    lemma_frames_disjoint(l2, t, i2, i0);
    assert(entry_at(v1.mem, l1, i1) == e1);
    let v2 = MmView { mem: write_word(v1.mem, l1 + i1 * 8, user_entry(e1)), ..v1 };
    assert(user_level_spec(v1, l1, i1) == (v2, Some(l2)));
    lemma_frames_disjoint(l2, l1, i2, i1);
    lemma_frames_disjoint(t, l1, i0, i1);
}

/// The translation of an address whose walk reaches, through a user table
/// descriptor, a page of a split block.
proof fn lemma_translate_split(m: Seq<u64>, t: int, l2: int, f: int, other: int, e2: u64)
    requires
        walk(m, t, other, 0, 2) == Some(l2),
        entry_at(m, l2, va_index(other, 2)) == user_table_desc(f),
        table_in_ram(f),
        0 <= other,
        entry_at(m, f, va_index(other, 3)) == split_desc(e2, va_index(other, 3)),
    ensures
        translate(m, t, other) == Some(block_out_addr(e2) + other % 0x20_0000),
{
    let j3 = va_index(other, 3);
    assert(0 <= j3 < 512 && other % 0x20_0000 == j3 * 0x1000 + other % 0x1000) by (nonlinear_arith)
        requires j3 == (other / 0x1000) % 512, other >= 0;
    lemma_frame_words(f);
    lemma_table_desc(true, f);
    assert(table_desc(true, f) == user_table_desc(f));
    law_split_keeps_block(e2, j3);
}

/// The translation of an address whose walk reaches a block at level 2.
proof fn lemma_translate_block(m: Seq<u64>, t: int, l2: int, other: int)
    requires
        walk(m, t, other, 0, 2) == Some(l2),
        pte_valid(entry_at(m, l2, va_index(other, 2))),
        !pte_table(entry_at(m, l2, va_index(other, 2))),
    ensures
        translate(m, t, other) == Some(block_out_addr(entry_at(m, l2, va_index(other, 2))) + other % 0x20_0000),
{
}

/// After the split and the final write, the walk of another page of the block
/// reaches its page of the split.
proof fn lemma_after_split(m2: Seq<u64>, m3: Seq<u64>, t: int, l1: int, l2: int, f: int, vaddr: int, other: int, d: u64, e2: u64)
    requires
        m2.len() == RAM_WORDS,
        m3.len() == RAM_WORDS,
        table_in_ram(t) && table_in_ram(l1) && table_in_ram(l2) && table_in_ram(f),
        f != t && f != l1 && f != l2,
        0 <= other,
        va_index(other, 0) == va_index(vaddr, 0),
        va_index(other, 1) == va_index(vaddr, 1),
        va_index(other, 2) == va_index(vaddr, 2),
        va_index(other, 3) != va_index(vaddr, 3),
        is_table_desc(entry_at(m2, t, va_index(vaddr, 0))),
        desc_addr(entry_at(m2, t, va_index(vaddr, 0))) == l1,
        is_table_desc(entry_at(m2, l1, va_index(vaddr, 1))),
        desc_addr(entry_at(m2, l1, va_index(vaddr, 1))) == l2,
        agree_on(m2, m3, t),
        agree_on(m2, m3, l1),
        entry_at(m3, l2, va_index(vaddr, 2)) == user_table_desc(f),
        forall|j: int| 0 <= j < 512 ==> #[trigger] entry_at(m3, f, j) == split_desc(e2, j),
    ensures
        translate(write_word(m3, f + va_index(vaddr, 3) * 8, d), t, other) == Some(block_out_addr(e2) + other % 0x20_0000),
{
    let i0 = va_index(vaddr, 0);
    let i1 = va_index(vaddr, 1);
    let i2 = va_index(vaddr, 2);
    let i3 = va_index(vaddr, 3);
    let j3 = va_index(other, 3);
    let m4 = write_word(m3, f + i3 * 8, d);
    lemma_final_entries(m2, m3, t, l1, l2, f, i0, i1, i2, i3, j3, d);
    assert(entry_at(m4, f, j3) == split_desc(e2, j3));
    lemma_walk_two(m4, t, l1, l2, other);
    lemma_translate_split(m4, t, l2, f, other, e2);
}

/// The entries on the walk after the final write of `map_user_page` into `f`.
proof fn lemma_final_entries(m2: Seq<u64>, m3: Seq<u64>, t: int, l1: int, l2: int, f: int,
    i0: int, i1: int, i2: int, i3: int, j3: int, d: u64)
    requires
        m3.len() == RAM_WORDS,
        table_in_ram(t) && table_in_ram(l1) && table_in_ram(l2) && table_in_ram(f),
        f != t && f != l1 && f != l2,
        0 <= i0 < 512 && 0 <= i1 < 512 && 0 <= i2 < 512 && 0 <= i3 < 512 && 0 <= j3 < 512,
        i3 != j3,
        agree_on(m2, m3, t),
        agree_on(m2, m3, l1),
    ensures
        entry_at(write_word(m3, f + i3 * 8, d), t, i0) == entry_at(m2, t, i0),
        entry_at(write_word(m3, f + i3 * 8, d), l1, i1) == entry_at(m2, l1, i1),
        entry_at(write_word(m3, f + i3 * 8, d), l2, i2) == entry_at(m3, l2, i2),
        entry_at(write_word(m3, f + i3 * 8, d), f, j3) == entry_at(m3, f, j3),
{
    lemma_word_index_offset(t, i0);
    lemma_word_index_offset(l1, i1);
    lemma_word_index_offset(l2, i2);
    lemma_word_index_offset(f, i3);
    lemma_word_index_offset(f, j3);
    lemma_frames_disjoint(t, f, i0, i3);
    lemma_frames_disjoint(l1, f, i1, i3);
    lemma_frames_disjoint(l2, f, i2, i3);
    assert(m2[word_index(t) + i0] == m3[word_index(t) + i0]);
    assert(m2[word_index(l1) + i1] == m3[word_index(l1) + i1]);
}

/// Mapping a user page inside a 2 MiB block keeps the rest of the block: when
/// the walk for `vaddr` ends at a block, every other page of that block
/// translates, after the split, to the same address as before.
pub proof fn law_user_split_keeps_neighbours(v: MmView, t: int, vaddr: int, other: int, paddr: int, attr: u64)
    requires
        v.used.len() == TOTAL_FRAMES,
        v.next <= TOTAL_FRAMES,
        v.mem.len() == RAM_WORDS,
        fresh_path(v, t, vaddr, 0, 3, Set::empty()),
        0 <= vaddr,
        0 <= other,
        vaddr / 0x20_0000 == other / 0x20_0000,
        vaddr / 0x1000 != other / 0x1000,
        walk(v.mem, t, vaddr, 0, 2) matches Some(l2) && pte_valid(entry_at(v.mem, l2, va_index(vaddr, 2)))
            && !pte_table(entry_at(v.mem, l2, va_index(vaddr, 2))),
    ensures
        ({
            let (v4, ok) = map_user_spec(v, t, vaddr, paddr, attr);
            ok ==> translate(v4.mem, t, other) == translate(v.mem, t, other)
        }),
{
    lemma_same_block_indices(vaddr, other);
    lemma_follow_two(v, t, vaddr);
    let i0 = va_index(vaddr, 0);
    let i1 = va_index(vaddr, 1);
    let i2 = va_index(vaddr, 2);
    assert(va_index(other, 3) != va_index(vaddr, 3)) by (nonlinear_arith)
        requires
            va_index(vaddr, 3) == (vaddr / 0x1000) % 512,
            va_index(other, 3) == (other / 0x1000) % 512,
            vaddr / 0x20_0000 == other / 0x20_0000,
            vaddr / 0x1000 != other / 0x1000,
            vaddr >= 0,
            other >= 0,
    ;
    let l1 = desc_addr(entry_at(v.mem, t, i0));
    let l2 = desc_addr(entry_at(v.mem, l1, i1));
    let e2 = entry_at(v.mem, l2, i2);
    lemma_walk_two(v.mem, t, l1, l2, other);
    lemma_translate_block(v.mem, t, l2, other);
    let (v1, r1) = user_level_spec(v, t, i0);
    let (v2, r2) = user_level_spec(v1, l1, i1);
    lemma_user_entry(entry_at(v.mem, t, i0));
    lemma_user_entry(entry_at(v.mem, l1, i1));
    lemma_split_step(v2, l2, i2, t, l1);
    let (v3, r3) = user_l2_spec(v2, l2, i2);
    if let Some(f) = r3 {
        lemma_after_split(v2.mem, v3.mem, t, l1, l2, f, vaddr, other,
            leaf_desc(paddr, PTE_VALID | PTE_PAGE | attr), e2);
    }
}

} // verus!
