//! What the kernel map built at boot translates: every address of the RAM
//! window and of the MMIO space below RAM maps to itself.
//!
//! The proof follows the tables through the four phases of the build. In each
//! phase the tables it fills are described entry by entry ([`only_entry`],
//! [`ram_l2`], [`dev_l2`], [`gic_l3`]), and each mapping call is shown to add
//! exactly one entry.
use vstd::prelude::*;
use crate::frame_alloc::{RAM_START, TOTAL_FRAMES};
use crate::phys_mem::RAM_WORDS;
use crate::pt_walk::{
    block_out_addr, frame_used, lemma_alloc_fresh, lemma_frame_words, lemma_frames_disjoint, lemma_word_in_frame,
    page_out_addr, translate, translate_desc, walk,
};
use crate::mm::{
    alloc_zeroed_spec, block_desc, entry_at, goa_spec, lemma_table_desc, lemma_word_index_offset,
    lemma_zero_invalid, leaf_desc, pte_table, pte_valid, table_desc, table_in_ram, va_index, write_word, MmView,
    PTE_PAGE, PTE_VALID,
};
use crate::pt_kernel::{descend, map_block_spec, map_page_spec, map_range_spec};
use crate::pt_boot::{
    gic_pages_spec, kernel_map_spec, KernelMapOutcome, GIC_MAP_PAGES, GIC_MAP_START, HIGH_DEVICE_START,
    KERNEL_DEVICE_ATTR, KERNEL_RAM_ATTR, KERNEL_RAM_MAP_SIZE, LOW_DEVICE_END,
};

verus! {

/// The access bits of a leaf descriptor: memory type (AttrIndx), access
/// permissions (AP) and the execute-never bits (PXN, UXN).
pub open spec fn access_bits(d: u64) -> u64 {
    d & 0x60_0000_0000_00DC
}

/// The allocator's bookkeeping and RAM have their fixed sizes.
pub open spec fn sizes_ok(v: MmView) -> bool {
    &&& v.used.len() == TOTAL_FRAMES
    &&& v.next <= TOTAL_FRAMES
    &&& v.mem.len() == RAM_WORDS
}

/// The tables `ts` are distinct allocated frames of RAM.
pub open spec fn frames_ok(v: MmView, ts: Seq<int>) -> bool {
    &&& forall|i: int| 0 <= i < ts.len() ==> table_in_ram(#[trigger] ts[i]) && frame_used(v, ts[i])
    &&& forall|i: int, j: int| 0 <= i < j < ts.len() ==> #[trigger] ts[i] != #[trigger] ts[j]
}

/// Entry `i` of table `t` is `d`, every other entry is zero.
pub open spec fn only_entry(mem: Seq<u64>, t: int, i: int, d: u64) -> bool {
    forall|j: int| 0 <= j < 512 ==> #[trigger] entry_at(mem, t, j) == (if j == i { d } else { 0u64 })
}

/// The RAM level-2 table: the first `k` blocks of the RAM window, identity mapped.
pub open spec fn ram_l2(mem: Seq<u64>, t: int, k: int) -> bool {
    forall|j: int| 0 <= j < 512 ==> #[trigger] entry_at(mem, t, j) == (if j < k {
        block_desc(RAM_START + j * 0x20_0000, KERNEL_RAM_ATTR)
    } else {
        0u64
    })
}

/// The device level-2 table: blocks `0..nd` and `65..nh` identity mapped, and
/// entry 64 naming the GIC page table `l3` once there is one.
pub open spec fn dev_l2(mem: Seq<u64>, t: int, nd: int, l3: Option<int>, nh: int) -> bool {
    forall|j: int| 0 <= j < 512 ==> #[trigger] entry_at(mem, t, j) == (if j < nd || 65 <= j < nh {
        block_desc(j * 0x20_0000, KERNEL_DEVICE_ATTR)
    } else if j == 64 && l3 is Some {
        table_desc(false, l3->0)
    } else {
        0u64
    })
}

/// The GIC page table: its first `k` pages identity mapped.
pub open spec fn gic_l3(mem: Seq<u64>, t: int, k: int) -> bool {
    forall|j: int| 0 <= j < 512 ==> #[trigger] entry_at(mem, t, j) == (if j < k {
        leaf_desc(GIC_MAP_START + j * 0x1000, PTE_VALID | PTE_PAGE | KERNEL_DEVICE_ATTR)
    } else {
        0u64
    })
}

/// Writing one entry leaves every other entry of the tables `ts` as it was.
proof fn lemma_write_keeps(mem: Seq<u64>, ts: Seq<int>, x: int, i: int, d: u64)
    requires
        mem.len() == RAM_WORDS,
        forall|k: int| 0 <= k < ts.len() ==> table_in_ram(#[trigger] ts[k]),
        table_in_ram(x),
        0 <= i < 512,
    ensures
        write_word(mem, x + i * 8, d).len() == RAM_WORDS,
        entry_at(write_word(mem, x + i * 8, d), x, i) == d,
        forall|k: int, j: int| 0 <= k < ts.len() && 0 <= j < 512 && !(ts[k] == x && j == i) ==>
            #[trigger] entry_at(write_word(mem, x + i * 8, d), ts[k], j) == entry_at(mem, ts[k], j),
{
    lemma_word_index_offset(x, i);
    assert forall|k: int, j: int| 0 <= k < ts.len() && 0 <= j < 512 && !(ts[k] == x && j == i) implies
        #[trigger] entry_at(write_word(mem, x + i * 8, d), ts[k], j) == entry_at(mem, ts[k], j) by {
        lemma_word_index_offset(ts[k], j);
        if ts[k] != x {
            lemma_frames_disjoint(ts[k], x, j, i);
        }
    }
}

/// Allocating a frame keeps the tables `ts` and their entries; the new frame is
/// another one and reads as zero.
proof fn lemma_alloc_keeps(v: MmView, ts: Seq<int>)
    requires
        sizes_ok(v),
        frames_ok(v, ts),
    ensures
        ({
            let (v1, r) = alloc_zeroed_spec(v);
            &&& sizes_ok(v1)
            &&& v1.kernel_table == v.kernel_table
            &&& r matches Some(f) ==> {
                &&& frames_ok(v1, ts.push(f))
                &&& forall|j: int| 0 <= j < 512 ==> #[trigger] entry_at(v1.mem, f, j) == 0
                &&& forall|k: int, j: int| 0 <= k < ts.len() && 0 <= j < 512 ==>
                    #[trigger] entry_at(v1.mem, ts[k], j) == entry_at(v.mem, ts[k], j)
            }
            &&& r is None ==> v1 == v
        }),
{
    lemma_alloc_fresh(v);
    let (v1, r) = alloc_zeroed_spec(v);
    if let Some(f) = r {
        lemma_frame_words(f);
        let ts2 = ts.push(f);
        assert forall|k: int| 0 <= k < ts.len() implies #[trigger] ts[k] != f && frame_used(v1, ts[k]) by {
            lemma_frame_words(ts[k]);
        }
        assert forall|i: int, j: int| 0 <= i < j < ts2.len() implies #[trigger] ts2[i] != #[trigger] ts2[j] by {
            if j == ts.len() {
                assert(ts[i] != f);
            }
        }
        assert forall|k: int, j: int| 0 <= k < ts.len() && 0 <= j < 512 implies
            #[trigger] entry_at(v1.mem, ts[k], j) == entry_at(v.mem, ts[k], j) by {
            lemma_word_index_offset(ts[k], j);
            lemma_word_in_frame(ts[k], j);
            lemma_frame_words(ts[k]);
        }
        assert forall|j: int| 0 <= j < 512 implies #[trigger] entry_at(v1.mem, f, j) == 0 by {
            lemma_word_index_offset(f, j);
            lemma_word_in_frame(f, j);
        }
        assert(frames_ok(v1, ts2));
    }
}

/// Table indices of the addresses the kernel map covers.
proof fn lemma_indices(va: int)
    requires
        0 <= va < RAM_START + KERNEL_RAM_MAP_SIZE,
    ensures
        va_index(va, 0) == 0,
        va < RAM_START ==> va_index(va, 1) == 0 && va_index(va, 2) == va / 0x20_0000,
        va >= RAM_START ==> va_index(va, 1) == 1 && va_index(va, 2) == (va - RAM_START) / 0x20_0000,
        va_index(va, 3) == (va / 0x1000) % 512,
{
}

/// Following a kernel table descriptor: `goa_spec` leaves the state as it is.
proof fn lemma_follow(v: MmView, t: int, idx: int, next: int)
    requires
        entry_at(v.mem, t, idx) == table_desc(false, next),
        table_in_ram(next),
    ensures
        goa_spec(v, t, idx, false) == (v, Some(next)),
{
    lemma_frame_words(next);
    lemma_table_desc(false, next);
}

/// Creating a kernel table where the entry is zero.
proof fn lemma_create(v: MmView, ts: Seq<int>, t: int, idx: int) -> (f: Option<int>)
    requires
        sizes_ok(v),
        frames_ok(v, ts),
        ts.contains(t),
        0 <= idx < 512,
        entry_at(v.mem, t, idx) == 0,
    ensures
        ({
            let (v1, r) = goa_spec(v, t, idx, false);
            &&& r == f
            &&& sizes_ok(v1)
            &&& v1.kernel_table == v.kernel_table
            &&& f matches Some(f) ==> {
                &&& frames_ok(v1, ts.push(f))
                &&& forall|j: int| 0 <= j < 512 ==> #[trigger] entry_at(v1.mem, f, j) == 0
                &&& entry_at(v1.mem, t, idx) == table_desc(false, f)
                &&& forall|k: int, j: int| 0 <= k < ts.len() && 0 <= j < 512 && !(ts[k] == t && j == idx) ==>
                    #[trigger] entry_at(v1.mem, ts[k], j) == entry_at(v.mem, ts[k], j)
            }
        }),
{
    lemma_zero_invalid();
    lemma_alloc_keeps(v, ts);
    let (v1, r) = alloc_zeroed_spec(v);
    if r is None {
        return None;
    }
    let f = r->0;
    let ts2 = ts.push(f);
    let d = table_desc(false, f);
    let v2 = MmView { mem: write_word(v1.mem, t + idx * 8, d), ..v1 };
    assert(goa_spec(v, t, idx, false) == (v2, Some(f)));
    assert forall|k: int| 0 <= k < ts2.len() implies table_in_ram(#[trigger] ts2[k]) by {
    }
    let i = choose|i: int| 0 <= i < ts.len() && ts[i] == t;
    assert(table_in_ram(ts[i]));
    lemma_write_keeps(v1.mem, ts2, t, idx, d);
    assert forall|j: int| 0 <= j < 512 implies #[trigger] entry_at(v2.mem, f, j) == 0 by {
        assert(ts2[ts.len() as int] == f);
        assert(f != t) by {
            assert(ts2[i] == t);
        }
        assert(entry_at(v2.mem, ts2[ts.len() as int], j) == entry_at(v1.mem, ts2[ts.len() as int], j));
    }
    assert forall|k: int, j: int| 0 <= k < ts.len() && 0 <= j < 512 && !(ts[k] == t && j == idx) implies
        #[trigger] entry_at(v2.mem, ts[k], j) == entry_at(v.mem, ts[k], j) by {
        assert(ts2[k] == ts[k]);
        assert(entry_at(v2.mem, ts2[k], j) == entry_at(v1.mem, ts2[k], j));
    }
    Some(f)
}

/// The kernel tables while RAM is mapped: the root names the level-1 table, which
/// names the RAM level-2 table holding the first `k` RAM blocks.
pub open spec fn ram_phase(v: MmView, r: int, l1: int, l2r: int, k: int) -> bool {
    &&& sizes_ok(v)
    &&& frames_ok(v, seq![r, l1, l2r])
    &&& only_entry(v.mem, r, 0, table_desc(false, l1))
    &&& only_entry(v.mem, l1, 1, table_desc(false, l2r))
    &&& ram_l2(v.mem, l2r, k)
}

/// Mapping the next RAM block adds it to the RAM level-2 table.
proof fn lemma_ram_step(v: MmView, r: int, l1: int, l2r: int, k: int)
    requires
        ram_phase(v, r, l1, l2r, k),
        0 <= k < 64,
    ensures
        ({
            let va = RAM_START + k * 0x20_0000;
            let (v1, ok) = map_block_spec(v, r, va, va, KERNEL_RAM_ATTR);
            &&& ok
            &&& ram_phase(v1, r, l1, l2r, k + 1)
            &&& v1.kernel_table == v.kernel_table
        }),
{
    let va = RAM_START + k * 0x20_0000;
    let ts = seq![r, l1, l2r];
    assert(ts[0] == r && ts[1] == l1 && ts[2] == l2r);
    lemma_indices(va);
    lemma_follow(v, r, 0, l1);
    lemma_follow(v, l1, 1, l2r);
    assert(descend(v, l2r, va, 2, 2, false) == (v, Some(l2r)));
    assert(descend(v, l1, va, 1, 2, false) == (v, Some(l2r)));
    assert(descend(v, r, va, 0, 2, false) == (v, Some(l2r)));
    lemma_zero_invalid();
    let d = block_desc(va, KERNEL_RAM_ATTR);
    lemma_write_keeps(v.mem, ts, l2r, k, d);
    let v1 = MmView { mem: write_word(v.mem, l2r + k * 8, d), ..v };
    assert(map_block_spec(v, r, va, va, KERNEL_RAM_ATTR) == (v1, true));
    assert forall|j: int| 0 <= j < 512 implies #[trigger] entry_at(v1.mem, r, j) == entry_at(v.mem, r, j)
        && entry_at(v1.mem, l1, j) == entry_at(v.mem, l1, j) by {
        assert(entry_at(v1.mem, ts[0], j) == entry_at(v.mem, ts[0], j));
        assert(entry_at(v1.mem, ts[1], j) == entry_at(v.mem, ts[1], j));
    }
    assert forall|j: int| 0 <= j < 512 && j != k implies #[trigger] entry_at(v1.mem, l2r, j) == entry_at(v.mem, l2r, j) by {
        assert(entry_at(v1.mem, ts[2], j) == entry_at(v.mem, ts[2], j));
    }
}

/// Mapping the first RAM block creates the level-1 and RAM level-2 tables.
proof fn lemma_ram_first(v: MmView, r: int) -> (res: (int, int))
    requires
        sizes_ok(v),
        frames_ok(v, seq![r]),
        only_entry(v.mem, r, 0, 0),
    ensures
        ({
            let (v1, ok) = map_block_spec(v, r, RAM_START as int, RAM_START as int, KERNEL_RAM_ATTR);
            ok ==> ram_phase(v1, r, res.0, res.1, 1) && v1.kernel_table == v.kernel_table
        }),
{
    let va = RAM_START as int;
    lemma_indices(va);
    let ts0 = seq![r];
    assert(ts0.contains(r)) by { assert(ts0[0] == r); }
    let f1 = lemma_create(v, ts0, r, 0);
    let (va1, ra) = goa_spec(v, r, 0, false);
    if f1 is None {
        return (0, 0);
    }
    let l1 = f1->0;
    let ts1 = seq![r, l1];
    assert(ts0.push(l1) =~= ts1);
    assert(ts1.contains(l1)) by { assert(ts1[1] == l1); }
    assert(entry_at(va1.mem, l1, 1) == 0);
    let f2 = lemma_create(va1, ts1, l1, 1);
    let (vb, rb) = goa_spec(va1, l1, 1, false);
    if f2 is None {
        assert(descend(va1, l1, va, 1, 2, false).1 is None);
        assert(descend(v, r, va, 0, 2, false).1 is None);
        return (l1, 0);
    }
    let l2r = f2->0;
    let ts2 = seq![r, l1, l2r];
    assert(ts1.push(l2r) =~= ts2);
    assert(descend(vb, l2r, va, 2, 2, false) == (vb, Some(l2r)));
    assert(descend(va1, l1, va, 1, 2, false) == (vb, Some(l2r)));
    assert(descend(v, r, va, 0, 2, false) == (vb, Some(l2r)));
    lemma_zero_invalid();
    let d = block_desc(va, KERNEL_RAM_ATTR);
    assert(entry_at(vb.mem, l2r, 0) == 0);
    lemma_write_keeps(vb.mem, ts2, l2r, 0, d);
    let v1 = MmView { mem: write_word(vb.mem, l2r + 0 * 8, d), ..vb };
    assert(map_block_spec(v, r, va, va, KERNEL_RAM_ATTR) == (v1, true));
    assert(ts2[0] == r && ts2[1] == l1 && ts2[2] == l2r);
    assert forall|j: int| 0 <= j < 512 implies #[trigger] entry_at(v1.mem, r, j) == (if j == 0 { table_desc(false, l1) } else { 0u64 }) by {
        assert(entry_at(v1.mem, ts2[0], j) == entry_at(vb.mem, ts2[0], j));
        assert(entry_at(vb.mem, ts1[0], j) == entry_at(va1.mem, ts1[0], j) || (ts1[0] == l1 && j == 1));
        assert(entry_at(va1.mem, ts0[0], j) == entry_at(v.mem, ts0[0], j) || j == 0);
    }
    assert forall|j: int| 0 <= j < 512 implies #[trigger] entry_at(v1.mem, l1, j) == (if j == 1 { table_desc(false, l2r) } else { 0u64 }) by {
        assert(entry_at(v1.mem, ts2[1], j) == entry_at(vb.mem, ts2[1], j));
        if j != 1 {
            assert(entry_at(vb.mem, ts1[1], j) == entry_at(va1.mem, ts1[1], j));
        }
    }
    assert forall|j: int| 0 <= j < 512 implies #[trigger] entry_at(v1.mem, l2r, j) == (if j < 1 {
        block_desc(RAM_START + j * 0x20_0000, KERNEL_RAM_ATTR) } else { 0u64 }) by {
        if j != 0 {
            assert(entry_at(v1.mem, ts2[2], j) == entry_at(vb.mem, ts2[2], j));
        }
    }
    (l1, l2r)
}

/// Mapping the RAM blocks from `k` on completes the RAM level-2 table.
proof fn lemma_ram_rest(v: MmView, r: int, l1: int, l2r: int, k: int)
    requires
        ram_phase(v, r, l1, l2r, k),
        0 <= k <= 64,
    ensures
        ({
            let va = RAM_START + k * 0x20_0000;
            let (v1, ok) = map_range_spec(v, r, va, va, RAM_START + KERNEL_RAM_MAP_SIZE, KERNEL_RAM_ATTR);
            &&& ok
            &&& ram_phase(v1, r, l1, l2r, 64)
            &&& v1.kernel_table == v.kernel_table
        }),
    decreases 64 - k,
{
    if k < 64 {
        lemma_ram_step(v, r, l1, l2r, k);
        let va = RAM_START + k * 0x20_0000;
        let (v1, ok) = map_block_spec(v, r, va, va, KERNEL_RAM_ATTR);
        lemma_ram_rest(v1, r, l1, l2r, k + 1);
        assert(va + 0x20_0000 == RAM_START + (k + 1) * 0x20_0000);
    }
}

/// The level-1 table once both level-2 tables exist.
pub open spec fn l1_both(mem: Seq<u64>, l1: int, l2d: int, l2r: int) -> bool {
    forall|j: int| 0 <= j < 512 ==> #[trigger] entry_at(mem, l1, j) == (if j == 0 {
        table_desc(false, l2d)
    } else if j == 1 {
        table_desc(false, l2r)
    } else {
        0u64
    })
}

/// The tables of the kernel map while MMIO is mapped.
pub open spec fn dev_tables(r: int, l1: int, l2r: int, l2d: int, l3: Option<int>) -> Seq<int> {
    match l3 {
        Some(t) => seq![r, l1, l2r, l2d, t],
        None => seq![r, l1, l2r, l2d],
    }
}

/// The kernel tables while MMIO is mapped: RAM complete, device blocks `0..nd`
/// and `65..nh`, and the GIC page table `l3` with its first `ng` pages once it exists.
pub open spec fn dev_phase(v: MmView, r: int, l1: int, l2r: int, l2d: int, nd: int, l3: Option<int>, ng: int, nh: int) -> bool {
    &&& sizes_ok(v)
    &&& frames_ok(v, dev_tables(r, l1, l2r, l2d, l3))
    &&& only_entry(v.mem, r, 0, table_desc(false, l1))
    &&& l1_both(v.mem, l1, l2d, l2r)
    &&& ram_l2(v.mem, l2r, 64)
    &&& dev_l2(v.mem, l2d, nd, l3, nh)
    &&& l3 matches Some(t) ==> gic_l3(v.mem, t, ng)
}

/// A write into the device level-2 table or the GIC page table leaves every
/// other entry of the kernel tables as it was.
proof fn lemma_dev_write(v: MmView, r: int, l1: int, l2r: int, l2d: int, l3: Option<int>, x: int, i: int, d: u64)
    requires
        sizes_ok(v),
        frames_ok(v, dev_tables(r, l1, l2r, l2d, l3)),
        x == l2d || (l3 is Some && x == l3->0),
        0 <= i < 512,
    ensures
        ({
            let m = write_word(v.mem, x + i * 8, d);
            &&& m.len() == RAM_WORDS
            &&& entry_at(m, x, i) == d
            &&& forall|j: int| 0 <= j < 512 ==> #[trigger] entry_at(m, r, j) == entry_at(v.mem, r, j)
            &&& forall|j: int| 0 <= j < 512 ==> #[trigger] entry_at(m, l1, j) == entry_at(v.mem, l1, j)
            &&& forall|j: int| 0 <= j < 512 ==> #[trigger] entry_at(m, l2r, j) == entry_at(v.mem, l2r, j)
            &&& forall|j: int| 0 <= j < 512 && !(x == l2d && j == i) ==> #[trigger] entry_at(m, l2d, j) == entry_at(v.mem, l2d, j)
            &&& l3 matches Some(t) ==> forall|j: int| 0 <= j < 512 && !(x == t && j == i) ==>
                #[trigger] entry_at(m, t, j) == entry_at(v.mem, t, j)
        }),
{
    let ts = dev_tables(r, l1, l2r, l2d, l3);
    assert(ts[0] == r && ts[1] == l1 && ts[2] == l2r && ts[3] == l2d);
    assert(table_in_ram(ts[3]));
    if l3 is Some {
        assert(ts[4] == l3->0);
        assert(table_in_ram(ts[4]));
    }
    lemma_write_keeps(v.mem, ts, x, i, d);
    let m = write_word(v.mem, x + i * 8, d);
    assert(x != r && x != l1 && x != l2r) by {
        assert(ts[0] != ts[3] && ts[1] != ts[3] && ts[2] != ts[3]);
        if l3 is Some {
            assert(ts[0] != ts[4] && ts[1] != ts[4] && ts[2] != ts[4]);
        }
    }
    assert forall|j: int| 0 <= j < 512 implies #[trigger] entry_at(m, r, j) == entry_at(v.mem, r, j) by {
        assert(entry_at(m, ts[0], j) == entry_at(v.mem, ts[0], j));
    }
    assert forall|j: int| 0 <= j < 512 implies #[trigger] entry_at(m, l1, j) == entry_at(v.mem, l1, j) by {
        assert(entry_at(m, ts[1], j) == entry_at(v.mem, ts[1], j));
    }
    assert forall|j: int| 0 <= j < 512 implies #[trigger] entry_at(m, l2r, j) == entry_at(v.mem, l2r, j) by {
        assert(entry_at(m, ts[2], j) == entry_at(v.mem, ts[2], j));
    }
    assert forall|j: int| 0 <= j < 512 && !(x == l2d && j == i) implies #[trigger] entry_at(m, l2d, j) == entry_at(v.mem, l2d, j) by {
        assert(entry_at(m, ts[3], j) == entry_at(v.mem, ts[3], j));
    }
    if let Some(t) = l3 {
        assert forall|j: int| 0 <= j < 512 && !(x == t && j == i) implies #[trigger] entry_at(m, t, j) == entry_at(v.mem, t, j) by {
            assert(entry_at(m, ts[4], j) == entry_at(v.mem, ts[4], j));
        }
    }
}

/// Mapping a device block `k` whose level-2 entry is still zero adds it.
proof fn lemma_dev_block(v: MmView, r: int, l1: int, l2r: int, l2d: int, nd: int, l3: Option<int>, ng: int, nh: int, k: int)
    requires
        dev_phase(v, r, l1, l2r, l2d, nd, l3, ng, nh),
        0 <= k < 512,
        k != 64,
        (k == nd && nd < 64 && nh == 65) || (k == nh && nd == 64 && 65 <= nh),
    ensures
        ({
            let va = k * 0x20_0000;
            let (v1, ok) = map_block_spec(v, r, va, va, KERNEL_DEVICE_ATTR);
            &&& ok
            &&& v1.kernel_table == v.kernel_table
            &&& if k < 64 {
                dev_phase(v1, r, l1, l2r, l2d, nd + 1, l3, ng, nh)
            } else {
                dev_phase(v1, r, l1, l2r, l2d, nd, l3, ng, nh + 1)
            }
        }),
{
    let va = k * 0x20_0000;
    lemma_indices(va);
    lemma_follow(v, r, 0, l1);
    lemma_follow(v, l1, 0, l2d);
    let ts = dev_tables(r, l1, l2r, l2d, l3);
    assert(ts[3] == l2d);
    assert(descend(v, l2d, va, 2, 2, false) == (v, Some(l2d)));
    assert(descend(v, l1, va, 1, 2, false) == (v, Some(l2d)));
    assert(descend(v, r, va, 0, 2, false) == (v, Some(l2d)));
    lemma_zero_invalid();
    assert(entry_at(v.mem, l2d, k) == 0);
    let d = block_desc(va, KERNEL_DEVICE_ATTR);
    lemma_dev_write(v, r, l1, l2r, l2d, l3, l2d, k, d);
    let v1 = MmView { mem: write_word(v.mem, l2d + k * 8, d), ..v };
    assert(map_block_spec(v, r, va, va, KERNEL_DEVICE_ATTR) == (v1, true));
}

/// Mapping the first low device block creates the device level-2 table.
proof fn lemma_dev_first(v: MmView, r: int, l1: int, l2r: int) -> (l2d: int)
    requires
        ram_phase(v, r, l1, l2r, 64),
    ensures
        ({
            let (v1, ok) = map_block_spec(v, r, 0, 0, KERNEL_DEVICE_ATTR);
            ok ==> dev_phase(v1, r, l1, l2r, l2d, 1, None, 0, 65) && v1.kernel_table == v.kernel_table
        }),
{
    let va = 0int;
    lemma_indices(va);
    let ts = seq![r, l1, l2r];
    assert(ts[0] == r && ts[1] == l1 && ts[2] == l2r);
    assert(ts.contains(l1));
    lemma_follow(v, r, 0, l1);
    let f = lemma_create(v, ts, l1, 0);
    let (v1, rf) = goa_spec(v, l1, 0, false);
    if f is None {
        assert(descend(v, l1, va, 1, 2, false).1 is None);
        assert(descend(v, r, va, 0, 2, false).1 is None);
        return 0;
    }
    let l2d = f->0;
    let ts2 = seq![r, l1, l2r, l2d];
    assert(ts.push(l2d) =~= ts2);
    assert(descend(v1, l2d, va, 2, 2, false) == (v1, Some(l2d)));
    assert(descend(v, l1, va, 1, 2, false) == (v1, Some(l2d)));
    assert(descend(v, r, va, 0, 2, false) == (v1, Some(l2d)));
    lemma_zero_invalid();
    assert(entry_at(v1.mem, l2d, 0) == 0);
    assert forall|j: int| 0 <= j < 512 implies #[trigger] entry_at(v1.mem, r, j) == entry_at(v.mem, r, j)
        && entry_at(v1.mem, l2r, j) == entry_at(v.mem, l2r, j) by {
        assert(entry_at(v1.mem, ts[0], j) == entry_at(v.mem, ts[0], j));
        assert(entry_at(v1.mem, ts[2], j) == entry_at(v.mem, ts[2], j));
    }
    assert forall|j: int| 0 <= j < 512 && j != 0 implies #[trigger] entry_at(v1.mem, l1, j) == entry_at(v.mem, l1, j) by {
        assert(entry_at(v1.mem, ts[1], j) == entry_at(v.mem, ts[1], j));
    }
    let d = block_desc(va, KERNEL_DEVICE_ATTR);
    assert(dev_tables(r, l1, l2r, l2d, None) == ts2);
    lemma_dev_write(v1, r, l1, l2r, l2d, None, l2d, 0, d);
    let v2 = MmView { mem: write_word(v1.mem, l2d + 0 * 8, d), ..v1 };
    assert(map_block_spec(v, r, va, va, KERNEL_DEVICE_ATTR) == (v2, true));
    assert(dev_phase(v2, r, l1, l2r, l2d, 1, None, 0, 65));
    l2d
}

/// Mapping the low device blocks from `k` on completes them.
proof fn lemma_low_rest(v: MmView, r: int, l1: int, l2r: int, l2d: int, k: int)
    requires
        dev_phase(v, r, l1, l2r, l2d, k, None, 0, 65),
        0 <= k <= 64,
    ensures
        ({
            let (v1, ok) = map_range_spec(v, r, k * 0x20_0000, k * 0x20_0000, LOW_DEVICE_END as int, KERNEL_DEVICE_ATTR);
            &&& ok
            &&& dev_phase(v1, r, l1, l2r, l2d, 64, None, 0, 65)
            &&& v1.kernel_table == v.kernel_table
        }),
    decreases 64 - k,
{
    if k < 64 {
        lemma_dev_block(v, r, l1, l2r, l2d, k, None, 0, 65, k);
        let va = k * 0x20_0000;
        let (v1, ok) = map_block_spec(v, r, va, va, KERNEL_DEVICE_ATTR);
        lemma_low_rest(v1, r, l1, l2r, l2d, k + 1);
        assert(va + 0x20_0000 == (k + 1) * 0x20_0000);
    }
}

/// Mapping the high device blocks from `k` on completes them.
proof fn lemma_high_rest(v: MmView, r: int, l1: int, l2r: int, l2d: int, l3: int, k: int)
    requires
        dev_phase(v, r, l1, l2r, l2d, 64, Some(l3), 512, k),
        65 <= k <= 512,
    ensures
        ({
            let (v1, ok) = map_range_spec(v, r, k * 0x20_0000, k * 0x20_0000, RAM_START as int, KERNEL_DEVICE_ATTR);
            &&& ok
            &&& dev_phase(v1, r, l1, l2r, l2d, 64, Some(l3), 512, 512)
            &&& v1.kernel_table == v.kernel_table
        }),
    decreases 512 - k,
{
    if k < 512 {
        lemma_dev_block(v, r, l1, l2r, l2d, 64, Some(l3), 512, k, k);
        let va = k * 0x20_0000;
        let (v1, ok) = map_block_spec(v, r, va, va, KERNEL_DEVICE_ATTR);
        lemma_high_rest(v1, r, l1, l2r, l2d, l3, k + 1);
        assert(va + 0x20_0000 == (k + 1) * 0x20_0000);
    }
}

/// Mapping GIC page `k` once the GIC page table exists adds it.
proof fn lemma_gic_step(v: MmView, r: int, l1: int, l2r: int, l2d: int, l3: int, k: int)
    requires
        dev_phase(v, r, l1, l2r, l2d, 64, Some(l3), k, 65),
        0 <= k < 512,
    ensures
        ({
            let va = GIC_MAP_START + k * 0x1000;
            let (v1, ok) = map_page_spec(v, r, va, va, KERNEL_DEVICE_ATTR);
            &&& ok
            &&& dev_phase(v1, r, l1, l2r, l2d, 64, Some(l3), k + 1, 65)
            &&& v1.kernel_table == v.kernel_table
        }),
{
    let va = GIC_MAP_START + k * 0x1000;
    lemma_indices(va);
    assert(va_index(va, 2) == 64 && va_index(va, 3) == k);
    let ts = dev_tables(r, l1, l2r, l2d, Some(l3));
    assert(ts[4] == l3);
    lemma_follow(v, r, 0, l1);
    lemma_follow(v, l1, 0, l2d);
    lemma_follow(v, l2d, 64, l3);
    assert(descend(v, l3, va, 3, 3, false) == (v, Some(l3)));
    assert(descend(v, l2d, va, 2, 3, false) == (v, Some(l3)));
    assert(descend(v, l1, va, 1, 3, false) == (v, Some(l3)));
    assert(descend(v, r, va, 0, 3, false) == (v, Some(l3)));
    let d = leaf_desc(va, PTE_VALID | PTE_PAGE | KERNEL_DEVICE_ATTR);
    lemma_dev_write(v, r, l1, l2r, l2d, Some(l3), l3, k, d);
    let v1 = MmView { mem: write_word(v.mem, l3 + k * 8, d), ..v };
    assert(map_page_spec(v, r, va, va, KERNEL_DEVICE_ATTR) == (v1, true));
}

/// Mapping the first GIC page creates the GIC page table.
proof fn lemma_gic_first(v: MmView, r: int, l1: int, l2r: int, l2d: int) -> (l3: int)
    requires
        dev_phase(v, r, l1, l2r, l2d, 64, None, 0, 65),
    ensures
        ({
            let va = GIC_MAP_START as int;
            let (v1, ok) = map_page_spec(v, r, va, va, KERNEL_DEVICE_ATTR);
            ok ==> dev_phase(v1, r, l1, l2r, l2d, 64, Some(l3), 1, 65) && v1.kernel_table == v.kernel_table
        }),
{
    let va = GIC_MAP_START as int;
    lemma_indices(va);
    assert(va_index(va, 2) == 64 && va_index(va, 3) == 0);
    let ts = dev_tables(r, l1, l2r, l2d, None);
    assert(ts[0] == r && ts[1] == l1 && ts[2] == l2r && ts[3] == l2d);
    assert(ts.contains(l2d));
    lemma_follow(v, r, 0, l1);
    lemma_follow(v, l1, 0, l2d);
    assert(entry_at(v.mem, l2d, 64) == 0);
    let f = lemma_create(v, ts, l2d, 64);
    let (v1, rf) = goa_spec(v, l2d, 64, false);
    if f is None {
        assert(descend(v, l2d, va, 2, 3, false).1 is None);
        assert(descend(v, l1, va, 1, 3, false).1 is None);
        assert(descend(v, r, va, 0, 3, false).1 is None);
        return 0;
    }
    let l3 = f->0;
    let ts2 = dev_tables(r, l1, l2r, l2d, Some(l3));
    assert(ts.push(l3) =~= ts2);
    assert(descend(v1, l3, va, 3, 3, false) == (v1, Some(l3)));
    assert(descend(v, l2d, va, 2, 3, false) == (v1, Some(l3)));
    assert(descend(v, l1, va, 1, 3, false) == (v1, Some(l3)));
    assert(descend(v, r, va, 0, 3, false) == (v1, Some(l3)));
    assert forall|j: int| 0 <= j < 512 implies #[trigger] entry_at(v1.mem, r, j) == entry_at(v.mem, r, j)
        && entry_at(v1.mem, l1, j) == entry_at(v.mem, l1, j) && entry_at(v1.mem, l2r, j) == entry_at(v.mem, l2r, j) by {
        assert(entry_at(v1.mem, ts[0], j) == entry_at(v.mem, ts[0], j));
        assert(entry_at(v1.mem, ts[1], j) == entry_at(v.mem, ts[1], j));
        assert(entry_at(v1.mem, ts[2], j) == entry_at(v.mem, ts[2], j));
    }
    assert forall|j: int| 0 <= j < 512 && j != 64 implies #[trigger] entry_at(v1.mem, l2d, j) == entry_at(v.mem, l2d, j) by {
        assert(entry_at(v1.mem, ts[3], j) == entry_at(v.mem, ts[3], j));
    }
    let d = leaf_desc(va, PTE_VALID | PTE_PAGE | KERNEL_DEVICE_ATTR);
    lemma_dev_write(v1, r, l1, l2r, l2d, Some(l3), l3, 0, d);
    let v2 = MmView { mem: write_word(v1.mem, l3 + 0 * 8, d), ..v1 };
    assert(map_page_spec(v, r, va, va, KERNEL_DEVICE_ATTR) == (v2, true));
    assert(dev_phase(v2, r, l1, l2r, l2d, 64, Some(l3), 1, 65));
    l3
}

/// Mapping the GIC pages from `k` on completes them.
proof fn lemma_gic_rest(v: MmView, r: int, l1: int, l2r: int, l2d: int, l3: int, k: int)
    requires
        dev_phase(v, r, l1, l2r, l2d, 64, Some(l3), k, 65),
        0 <= k <= 512,
    ensures
        ({
            let (v1, n) = gic_pages_spec(v, r, k);
            &&& n == GIC_MAP_PAGES
            &&& dev_phase(v1, r, l1, l2r, l2d, 64, Some(l3), 512, 65)
            &&& v1.kernel_table == v.kernel_table
        }),
    decreases 512 - k,
{
    if k < 512 {
        lemma_gic_step(v, r, l1, l2r, l2d, l3, k);
        let va = GIC_MAP_START + k * 0x1000;
        let (v1, ok) = map_page_spec(v, r, va, va, KERNEL_DEVICE_ATTR);
        lemma_gic_rest(v1, r, l1, l2r, l2d, l3, k + 1);
    }
}

/// The kernel tables that `kernel_map_spec` builds, when every mapping succeeds.
proof fn lemma_kernel_map_tables(v: MmView) -> (res: (int, int, int, int))
    requires
        sizes_ok(v),
    ensures
        ({
            let (v5, out) = kernel_map_spec(v);
            match out {
                KernelMapOutcome::Mapped { root, gic_pages } => gic_pages == GIC_MAP_PAGES ==>
                    dev_phase(v5, root as int, res.0, res.1, res.2, 64, Some(res.3), 512, 512),
                _ => true,
            }
        }),
{
    let (v1, rr) = alloc_zeroed_spec(v);
    lemma_alloc_keeps(v, Seq::<int>::empty());
    if rr is None {
        return (0, 0, 0, 0);
    }
    let root = rr->0;
    assert(Seq::<int>::empty().push(root) =~= seq![root]);
    let v1k = MmView { kernel_table: root as usize, ..v1 };
    assert(frames_ok(v1k, seq![root]));
    assert(only_entry(v1k.mem, root, 0, 0));

    // RAM.
    let ram_end = RAM_START + KERNEL_RAM_MAP_SIZE;
    let (l1, l2r) = lemma_ram_first(v1k, root);
    let (va1, ok1) = map_block_spec(v1k, root, RAM_START as int, RAM_START as int, KERNEL_RAM_ATTR);
    if !ok1 {
        assert(map_range_spec(v1k, root, RAM_START as int, RAM_START as int, ram_end, KERNEL_RAM_ATTR).1 == false);
        return (0, 0, 0, 0);
    }
    lemma_ram_rest(va1, root, l1, l2r, 1);
    let (v2, ok2) = map_range_spec(v1k, root, RAM_START as int, RAM_START as int, ram_end, KERNEL_RAM_ATTR);
    assert(map_range_spec(va1, root, RAM_START + 0x20_0000, RAM_START + 0x20_0000, ram_end, KERNEL_RAM_ATTR) == (v2, ok2));
    assert(ok2 && ram_phase(v2, root, l1, l2r, 64));

    // Low MMIO.
    let l2d = lemma_dev_first(v2, root, l1, l2r);
    let (vb1, okb) = map_block_spec(v2, root, 0, 0, KERNEL_DEVICE_ATTR);
    if !okb {
        assert(map_range_spec(v2, root, 0, 0, LOW_DEVICE_END as int, KERNEL_DEVICE_ATTR).1 == false);
        return (l1, l2r, 0, 0);
    }
    lemma_low_rest(vb1, root, l1, l2r, l2d, 1);
    let (v3, ok3) = map_range_spec(v2, root, 0, 0, LOW_DEVICE_END as int, KERNEL_DEVICE_ATTR);
    assert(map_range_spec(vb1, root, 0x20_0000, 0x20_0000, LOW_DEVICE_END as int, KERNEL_DEVICE_ATTR) == (v3, ok3));
    assert(ok3 && dev_phase(v3, root, l1, l2r, l2d, 64, None, 0, 65));

    // GIC pages.
    let l3 = lemma_gic_first(v3, root, l1, l2r, l2d);
    let (vc1, okc) = map_page_spec(v3, root, GIC_MAP_START as int, GIC_MAP_START as int, KERNEL_DEVICE_ATTR);
    let (v4, n) = gic_pages_spec(v3, root, 0);
    if !okc {
        assert(n == 0);
        return (l1, l2r, l2d, 0);
    }
    lemma_gic_rest(vc1, root, l1, l2r, l2d, l3, 1);
    assert(gic_pages_spec(vc1, root, 1) == (v4, n));

    // High MMIO.
    lemma_high_rest(v4, root, l1, l2r, l2d, l3, 65);
    assert(HIGH_DEVICE_START == 65 * 0x20_0000);
    (l1, l2r, l2d, l3)
}

/// A kernel block descriptor for a 2 MiB aligned address below 2^48 is a valid
/// block that maps that address.
proof fn lemma_block_maps(b: int, attr: u64)
    requires
        0 <= b < 0x1_0000_0000_0000,
        b % 0x20_0000 == 0,
        attr == KERNEL_RAM_ATTR || attr == KERNEL_DEVICE_ATTR,
    ensures
        pte_valid(block_desc(b, attr)),
        !pte_table(block_desc(b, attr)),
        block_out_addr(block_desc(b, attr)) == b,
        access_bits(block_desc(b, attr)) == access_bits(attr),
{
    let bb = b as u64;
    assert(crate::mm::block_base(b) == b);
    let e = bb | 1u64 | 0u64 | 0x400u64 | attr;
    assert(e == block_desc(b, attr));
    assert(e & 1 != 0 && e & 2 == 0 && (e / 0x20_0000) % 0x800_0000 * 0x20_0000 == bb
        && e & 0x60_0000_0000_00DC == attr & 0x60_0000_0000_00DC) by (bit_vector)
        requires
            e == bb | 1u64 | 0u64 | 0x400u64 | attr,
            bb % 0x20_0000 == 0,
            bb < 0x1_0000_0000_0000,
            attr == KERNEL_RAM_ATTR || attr == KERNEL_DEVICE_ATTR,
    ;
}

/// A kernel device page descriptor for a 4 KiB aligned address below 2^48 is a
/// valid page that maps that address.
proof fn lemma_page_maps(p: int)
    requires
        0 <= p < 0x1_0000_0000_0000,
        p % 0x1000 == 0,
    ensures
        pte_valid(leaf_desc(p, PTE_VALID | PTE_PAGE | KERNEL_DEVICE_ATTR)),
        pte_table(leaf_desc(p, PTE_VALID | PTE_PAGE | KERNEL_DEVICE_ATTR)),
        page_out_addr(leaf_desc(p, PTE_VALID | PTE_PAGE | KERNEL_DEVICE_ATTR)) == p,
        access_bits(leaf_desc(p, PTE_VALID | PTE_PAGE | KERNEL_DEVICE_ATTR)) == access_bits(KERNEL_DEVICE_ATTR),
{
    let pp = p as u64;
    assert(crate::mm::frame_base(p) == p);
    let e = pp | 0x400u64 | (1u64 | 2u64 | KERNEL_DEVICE_ATTR);
    assert(e == leaf_desc(p, PTE_VALID | PTE_PAGE | KERNEL_DEVICE_ATTR));
    assert(e & 1 != 0 && e & 2 != 0 && (e / 0x1000) % 0x10_0000_0000 * 0x1000 == pp
        && e & 0x60_0000_0000_00DC == KERNEL_DEVICE_ATTR & 0x60_0000_0000_00DC) by (bit_vector)
        requires
            e == pp | 0x400u64 | (1u64 | 2u64 | KERNEL_DEVICE_ATTR),
            pp % 0x1000 == 0,
            pp < 0x1_0000_0000_0000,
    ;
}

/// In the complete kernel tables every address of the RAM window and of the MMIO
/// space below RAM translates to itself.
proof fn lemma_complete_identity(v: MmView, r: int, l1: int, l2r: int, l2d: int, l3: int, va: int)
    requires
        dev_phase(v, r, l1, l2r, l2d, 64, Some(l3), 512, 512),
        0 <= va < RAM_START + KERNEL_RAM_MAP_SIZE,
    ensures
        translate(v.mem, r, va) == Some(va),
        translate_desc(v.mem, r, va) matches Some(d) && access_bits(d) == access_bits(kernel_attr_at(va)),
{
    lemma_indices(va);
    let ts = dev_tables(r, l1, l2r, l2d, Some(l3));
    assert(ts[0] == r && ts[1] == l1 && ts[2] == l2r && ts[3] == l2d && ts[4] == l3);
    assert(table_in_ram(ts[1]) && table_in_ram(ts[2]) && table_in_ram(ts[3]) && table_in_ram(ts[4]));
    lemma_frame_words(l1);
    lemma_frame_words(l2r);
    lemma_frame_words(l2d);
    lemma_frame_words(l3);
    lemma_table_desc(false, l1);
    lemma_table_desc(false, l2r);
    lemma_table_desc(false, l2d);
    lemma_table_desc(false, l3);
    assert(entry_at(v.mem, r, 0) == table_desc(false, l1));
    if va >= RAM_START {
        let j = (va - RAM_START) / 0x20_0000;
        let b = RAM_START + j * 0x20_0000;
        assert(0 <= j < 64);
        assert(entry_at(v.mem, l1, 1) == table_desc(false, l2r));
        assert(walk(v.mem, l2r, va, 2, 2) == Some(l2r));
        assert(walk(v.mem, l1, va, 1, 2) == Some(l2r));
        assert(walk(v.mem, r, va, 0, 2) == Some(l2r));
        assert(entry_at(v.mem, l2r, j) == block_desc(b, KERNEL_RAM_ATTR));
        assert(b % 0x20_0000 == 0 && va % 0x20_0000 == va - b) by (nonlinear_arith)
            requires b == 0x4000_0000 + j * 0x20_0000, j == (va - 0x4000_0000) / 0x20_0000, va >= 0x4000_0000;
        lemma_block_maps(b, KERNEL_RAM_ATTR);
    } else {
        let j = va / 0x20_0000;
        assert(0 <= j < 512);
        assert(entry_at(v.mem, l1, 0) == table_desc(false, l2d));
        assert(walk(v.mem, l2d, va, 2, 2) == Some(l2d));
        assert(walk(v.mem, l1, va, 1, 2) == Some(l2d));
        assert(walk(v.mem, r, va, 0, 2) == Some(l2d));
        if j == 64 {
            assert(entry_at(v.mem, l2d, 64) == table_desc(false, l3));
            let p = (va / 0x1000) % 512;
            let pa = GIC_MAP_START + p * 0x1000;
            assert(p == (va - GIC_MAP_START) / 0x1000 && pa % 0x1000 == 0 && va % 0x1000 == va - pa) by (nonlinear_arith)
                requires
                    p == (va / 0x1000) % 512,
                    pa == 0x0800_0000 + p * 0x1000,
                    0x0800_0000 <= va < 0x0820_0000,
            ;
            assert(0 <= p < 512);
            assert(entry_at(v.mem, l3, p) == leaf_desc(pa, PTE_VALID | PTE_PAGE | KERNEL_DEVICE_ATTR));
            lemma_page_maps(pa);
        } else {
            let b = j * 0x20_0000;
            assert(entry_at(v.mem, l2d, j) == block_desc(b, KERNEL_DEVICE_ATTR));
            assert(b % 0x20_0000 == 0 && va % 0x20_0000 == va - b) by (nonlinear_arith)
                requires b == j * 0x20_0000, j == va / 0x20_0000, va >= 0;
            lemma_block_maps(b, KERNEL_DEVICE_ATTR);
        }
    }
}

/// The attributes the kernel map gives address `va`: normal memory for the RAM
/// window, device memory below it.
pub open spec fn kernel_attr_at(va: int) -> u64 {
    if va >= RAM_START { KERNEL_RAM_ATTR } else { KERNEL_DEVICE_ATTR }
}

/// The kernel map is an identity map: once it is built with every GIC page,
/// every address of the RAM window and of the MMIO space below RAM translates
/// to itself through the new root table. RAM is normal memory, EL1 read-write
/// only, never executable at EL0; the MMIO space is device memory, EL1
/// read-write only, never executable at any level.
pub proof fn law_kernel_map_is_identity(v: MmView, va: int)
    requires
        v.used.len() == TOTAL_FRAMES,
        v.next <= TOTAL_FRAMES,
        v.mem.len() == RAM_WORDS,
        0 <= va < RAM_START + KERNEL_RAM_MAP_SIZE,
    ensures
        ({
            let (v1, out) = kernel_map_spec(v);
            match out {
                KernelMapOutcome::Mapped { root, gic_pages } => gic_pages == GIC_MAP_PAGES ==> {
                    &&& translate(v1.mem, root as int, va) == Some(va)
                    &&& translate_desc(v1.mem, root as int, va) matches Some(d)
                        && access_bits(d) == access_bits(kernel_attr_at(va))
                },
                _ => true,
            }
        }),
{
    let (l1, l2r, l2d, l3) = lemma_kernel_map_tables(v);
    let (v1, out) = kernel_map_spec(v);
    if let KernelMapOutcome::Mapped { root, gic_pages } = out {
        if gic_pages == GIC_MAP_PAGES {
            lemma_complete_identity(v1, root as int, l1, l2r, l2d, l3, va);
        }
    }
}

} // verus!
