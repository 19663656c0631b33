//! Frame allocator for the 4 KiB physical pages of RAM.
//!
//! A bitmap holds one bit per frame (1 = allocated, 0 = free). Allocation scans
//! cyclically from the frame after the last one handed out.
use vstd::prelude::*;

verus! {

pub const PAGE_SIZE: usize = 4096;

pub const RAM_START: usize = 0x4000_0000;

pub const RAM_SIZE: usize = 0x800_0000;

/// `RAM_SIZE / PAGE_SIZE`.
pub const TOTAL_FRAMES: usize = 32768;

/// `TOTAL_FRAMES / 64`, rounded up.
pub const BITMAP_WORDS: usize = 512;

/// Bit `b` of `w`.
pub open spec fn bit_of(w: u64, b: u64) -> bool {
    (w >> b) & 1 == 1
}

/// Physical address of frame `idx`.
pub open spec fn frame_addr(idx: int) -> int {
    RAM_START + idx * PAGE_SIZE
}

/// The frame index of an address that `free_frame` accepts, if any.
pub open spec fn frame_of_addr(paddr: int) -> Option<int> {
    if RAM_START <= paddr < RAM_START + RAM_SIZE && paddr % (PAGE_SIZE as int) == 0 {
        Some((paddr - RAM_START) / (PAGE_SIZE as int))
    } else {
        None
    }
}

/// Allocation state after marking frame `idx` used.
pub open spec fn after_alloc(used: Seq<bool>, idx: int) -> Seq<bool> {
    used.update(idx, true)
}

/// Allocation state after `free_frame(paddr)`.
pub open spec fn after_free(used: Seq<bool>, paddr: int) -> Seq<bool> {
    match frame_of_addr(paddr) {
        Some(idx) => used.update(idx, false),
        None => used,
    }
}

/// The frame `k` steps after `start` in cyclic order.
pub open spec fn cyclic(start: int, k: int) -> int {
    (start + k) % (TOTAL_FRAMES as int)
}

/// `k` is the first step from `start` whose frame is free.
pub open spec fn first_free_step(used: Seq<bool>, start: int, k: int) -> bool {
    &&& 0 <= k < TOTAL_FRAMES
    &&& !used[cyclic(start, k)]
    &&& forall|k2: int| 0 <= k2 < k ==> #[trigger] used[cyclic(start, k2)]
}

pub open spec fn all_used(used: Seq<bool>) -> bool {
    forall|i: int| 0 <= i < TOTAL_FRAMES ==> #[trigger] used[i]
}

/// The frame the allocator hands out next: the first free one at or after
/// `start` in cyclic order, `None` when every frame is allocated.
pub open spec fn next_free(used: Seq<bool>, start: int) -> Option<int> {
    if exists|k: int| #[trigger] first_free_step(used, start, k) {
        Some(cyclic(start, choose|k: int| #[trigger] first_free_step(used, start, k)))
    } else {
        None
    }
}

/// The first free step is unique.
pub proof fn lemma_first_free_unique(used: Seq<bool>, start: int, k1: int, k2: int)
    requires
        first_free_step(used, start, k1),
        first_free_step(used, start, k2),
    ensures
        k1 == k2,
{
    if k1 < k2 {
        assert(used[cyclic(start, k1)]);
    } else if k2 < k1 {
        assert(used[cyclic(start, k2)]);
    }
}

pub struct FrameAllocator {
    bitmap: Vec<u64>,
    next_frame: usize,
}

impl FrameAllocator {
    pub closed spec fn wf(&self) -> bool {
        &&& self.bitmap@.len() == BITMAP_WORDS
        &&& self.next_frame <= TOTAL_FRAMES
    }

    /// Frame `i` is allocated.
    pub closed spec fn used(&self) -> Seq<bool> {
        Seq::new(TOTAL_FRAMES as nat, |i: int| bit_of(self.bitmap@[i / 64], (i % 64) as u64))
    }

    /// Where the next scan starts.
    pub closed spec fn next(&self) -> nat {
        self.next_frame as nat
    }

    /// A well-formed allocator tracks every frame and starts its scan at a frame or at the end.
    pub proof fn lemma_wf(&self)
        requires
            self.wf(),
        ensures
            self.used().len() == TOTAL_FRAMES,
            self.next() <= TOTAL_FRAMES,
    {
    }

    /// An allocator with every frame free.
    pub fn new() -> (r: Self)
        ensures
            r.wf(),
            r.used() == Seq::new(TOTAL_FRAMES as nat, |i: int| false),
            r.next() == 0,
    {
        let mut bitmap: Vec<u64> = Vec::new();
        let mut i: usize = 0;
        while i < BITMAP_WORDS
            invariant
                i <= BITMAP_WORDS,
                bitmap@.len() == i,
                forall|j: int| 0 <= j < i ==> #[trigger] bitmap@[j] == 0,
            decreases BITMAP_WORDS - i,
        {
            bitmap.push(0);
            i = i + 1;
        }
        let r = FrameAllocator { bitmap, next_frame: 0 };
        assert(forall|b: u64| b < 64 ==> !#[trigger] bit_of(0, b)) by (bit_vector);
        assert(r.used() =~= Seq::new(TOTAL_FRAMES as nat, |i: int| false));
        r
    }

    /// An allocator over a given bitmap, the scan starting at `next_frame`.
    pub fn from_bitmap(bitmap: Vec<u64>, next_frame: usize) -> (r: Self)
        requires
            bitmap@.len() == BITMAP_WORDS,
            next_frame <= TOTAL_FRAMES,
        ensures
            r.wf(),
            r.used() == Seq::new(TOTAL_FRAMES as nat, |i: int| bit_of(bitmap@[i / 64], (i % 64) as u64)),
            r.next() == next_frame,
    {
        FrameAllocator { bitmap, next_frame }
    }

    /// Marks the frames below the end of the kernel image as allocated and starts
    /// the scan just after them.
    pub fn init(&mut self, kernel_end: usize)
        requires
            old(self).wf(),
            RAM_START <= kernel_end <= RAM_START + RAM_SIZE,
        ensures
            final(self).wf(),
            final(self).next() == (kernel_end - RAM_START + PAGE_SIZE - 1) / (PAGE_SIZE as int),
            final(self).used() == Seq::new(TOTAL_FRAMES as nat, |i: int|
                old(self).used()[i] || i < final(self).next()),
    {
        let kernel_end_aligned = (kernel_end + PAGE_SIZE - 1) / PAGE_SIZE * PAGE_SIZE;
        let first_free_frame = (kernel_end_aligned - RAM_START) / PAGE_SIZE;
        assert(first_free_frame == (kernel_end - RAM_START + PAGE_SIZE - 1) / (PAGE_SIZE as int)) by (nonlinear_arith)
            requires
                kernel_end_aligned == (kernel_end as int + 4095) / 4096 * 4096,
                first_free_frame == (kernel_end_aligned as int - 0x4000_0000) / 4096,
                0x4000_0000 <= kernel_end,
        ;
        assert(first_free_frame <= TOTAL_FRAMES);
        let ghost old_used = self.used();
        let mut i: usize = 0;
        while i < first_free_frame
            invariant
                self.wf(),
                first_free_frame <= TOTAL_FRAMES,
                i <= first_free_frame,
                self.used() == Seq::new(TOTAL_FRAMES as nat, |j: int| old_used[j] || j < i),
            decreases first_free_frame - i,
        {
            self.set_bit(i);
            assert(self.used() =~= Seq::new(TOTAL_FRAMES as nat, |j: int| old_used[j] || j < i + 1));
            i = i + 1;
        }
        self.next_frame = first_free_frame;
    }

    fn set_bit(&mut self, idx: usize)
        requires
            old(self).wf(),
            idx < TOTAL_FRAMES,
        ensures
            final(self).wf(),
            final(self).next() == old(self).next(),
            final(self).used() == old(self).used().update(idx as int, true),
    {
        let word = idx / 64;
        let bit = idx % 64;
        let old_w = self.bitmap[word];
        let b = bit as u64;
        let new_w = old_w | (1u64 << b);
        self.bitmap.set(word, new_w);
        proof {
            lemma_bit_set(old_w, b);
            assert(self.used() =~= old(self).used().update(idx as int, true)) by {
                assert forall|i: int| 0 <= i < TOTAL_FRAMES implies #[trigger] self.used()[i]
                    == old(self).used().update(idx as int, true)[i] by {
                    if i / 64 == word as int {
                        assert(0 <= i % 64 < 64);
                    }
                }
            }
        }
    }

    fn clear_bit(&mut self, idx: usize)
        requires
            old(self).wf(),
            idx < TOTAL_FRAMES,
        ensures
            final(self).wf(),
            final(self).next() == old(self).next(),
            final(self).used() == old(self).used().update(idx as int, false),
    {
        let word = idx / 64;
        let bit = idx % 64;
        let old_w = self.bitmap[word];
        let b = bit as u64;
        let new_w = old_w & !(1u64 << b);
        self.bitmap.set(word, new_w);
        proof {
            lemma_bit_clear(old_w, b);
            assert(self.used() =~= old(self).used().update(idx as int, false)) by {
                assert forall|i: int| 0 <= i < TOTAL_FRAMES implies #[trigger] self.used()[i]
                    == old(self).used().update(idx as int, false)[i] by {
                    if i / 64 == word as int {
                        assert(0 <= i % 64 < 64);
                    }
                }
            }
        }
    }

    /// Whether frame `idx` is allocated.
    pub fn is_set(&self, idx: usize) -> (r: bool)
        requires
            self.wf(),
            idx < TOTAL_FRAMES,
        ensures
            r == self.used()[idx as int],
    {
        let word = idx / 64;
        let bit = idx % 64;
        (self.bitmap[word] >> (bit as u64)) & 1 == 1
    }

    /// Allocates the first free frame at or after the scan start, in cyclic order.
    ///
    /// `None` exactly when every frame is allocated.
    pub fn alloc_frame(&mut self) -> (r: Option<usize>)
        requires
            old(self).wf(),
        ensures
            final(self).wf(),
            r is None <==> all_used(old(self).used()),
            r is None <==> next_free(old(self).used(), old(self).next() as int) is None,
            r is None ==> final(self).used() == old(self).used() && final(self).next() == old(self).next(),
            r matches Some(p) ==> {
                let idx = next_free(old(self).used(), old(self).next() as int)->0;
                &&& 0 <= idx < TOTAL_FRAMES
                &&& !old(self).used()[idx]
                &&& p == frame_addr(idx)
                &&& final(self).used() == after_alloc(old(self).used(), idx)
                &&& final(self).next() == idx + 1
            },
    {
        let start = self.next_frame;
        let ghost used0 = self.used();
        let mut i: usize = 0;
        while i < TOTAL_FRAMES
            invariant
                self.wf(),
                start == self.next_frame,
                start == old(self).next(),
                used0 == self.used(),
                used0 == old(self).used(),
                i <= TOTAL_FRAMES,
                forall|k: int| 0 <= k < i ==> #[trigger] used0[cyclic(start as int, k)],
            decreases TOTAL_FRAMES - i,
        {
            let idx = (start + i) % TOTAL_FRAMES;
            if !self.is_set(idx) {
                self.set_bit(idx);
                self.next_frame = idx + 1;
                assert(idx as int == cyclic(start as int, i as int));
                assert(first_free_step(used0, start as int, i as int));
                assert(!used0[idx as int]);
                assert(!all_used(used0));
                assert(self.used() == after_alloc(used0, idx as int));
                proof {
                    let k = choose|k: int| #[trigger] first_free_step(used0, start as int, k);
                    lemma_first_free_unique(used0, start as int, k, i as int);
                }
                return Some(RAM_START + idx * PAGE_SIZE);
            }
            i = i + 1;
        }
        proof {
            assert forall|j: int| 0 <= j < TOTAL_FRAMES implies #[trigger] used0[j] by {
                let k = lemma_cyclic_hits(start as int, j);
                assert(used0[cyclic(start as int, k)]);
            }
            assert forall|k: int| !#[trigger] first_free_step(used0, start as int, k) by {
                if 0 <= k < TOTAL_FRAMES {
                    assert(used0[cyclic(start as int, k)]);
                }
            }
        }
        None
    }

    /// Returns frame `paddr` to the pool; an address outside RAM or not
    /// page-aligned is ignored.
    pub fn free_frame(&mut self, paddr: usize)
        requires
            old(self).wf(),
        ensures
            final(self).wf(),
            final(self).used() == after_free(old(self).used(), paddr as int),
            final(self).next() == old(self).next(),
    {
        if !(RAM_START <= paddr && paddr < RAM_START + RAM_SIZE) {
            return;
        }
        if paddr % PAGE_SIZE != 0 {
            return;
        }
        let idx = (paddr - RAM_START) / PAGE_SIZE;
        self.clear_bit(idx);
    }
}

/// Every frame is reached by some step of the cyclic scan.
proof fn lemma_cyclic_hits(start: int, j: int) -> (k: int)
    requires
        0 <= start <= TOTAL_FRAMES,
        0 <= j < TOTAL_FRAMES,
    ensures
        0 <= k < TOTAL_FRAMES,
        cyclic(start, k) == j,
{
    let t = TOTAL_FRAMES as int;
    if j >= start {
        let k = j - start;
        vstd::arithmetic::div_mod::lemma_small_mod(j as nat, t as nat);
        k
    } else {
        let k = j + t - start;
        vstd::arithmetic::div_mod::lemma_mod_add_multiples_vanish(j, t);
        vstd::arithmetic::div_mod::lemma_small_mod(j as nat, t as nat);
        k
    }
}

proof fn lemma_bit_set(w: u64, b: u64)
    requires
        b < 64,
    ensures
        forall|c: u64| c < 64 ==> #[trigger] bit_of(w | (1u64 << b), c) == (c == b || bit_of(w, c)),
{
    assert(forall|c: u64| c < 64 ==> #[trigger] bit_of(w | (1u64 << b), c) == (c == b || bit_of(w, c))) by (bit_vector)
        requires b < 64;
}

proof fn lemma_bit_clear(w: u64, b: u64)
    requires
        b < 64,
    ensures
        forall|c: u64| c < 64 ==> #[trigger] bit_of(w & !(1u64 << b), c) == (c != b && bit_of(w, c)),
{
    assert(forall|c: u64| c < 64 ==> #[trigger] bit_of(w & !(1u64 << b), c) == (c != b && bit_of(w, c))) by (bit_vector)
        requires b < 64;
}

/// Freeing a frame that was just allocated restores the allocation state.
pub proof fn law_free_undoes_alloc(used: Seq<bool>, idx: int)
    requires
        used.len() == TOTAL_FRAMES,
        0 <= idx < TOTAL_FRAMES,
        !used[idx],
    ensures
        after_free(after_alloc(used, idx), frame_addr(idx)) == used,
{
    assert(frame_addr(idx) - RAM_START == idx * 4096);
    assert((idx * 4096) % 4096 == 0 && (idx * 4096) / 4096 == idx) by (nonlinear_arith)
        requires 0 <= idx;
    assert((frame_addr(idx)) % 4096 == 0) by {
        vstd::arithmetic::div_mod::lemma_mod_add_multiples_vanish(idx * 4096, 4096);
        assert(frame_addr(idx) == idx * 4096 + 4096 * 0x40000);
        vstd::arithmetic::div_mod::lemma_mod_multiples_vanish(0x40000, idx * 4096, 4096);
    }
    assert(frame_of_addr(frame_addr(idx)) == Some(idx));
    assert(after_free(after_alloc(used, idx), frame_addr(idx)) =~= used);
}

/// The cyclic step as a plain sum: at most one wrap past the end.
proof fn lemma_cyclic_value(start: int, k: int)
    requires
        0 <= start <= TOTAL_FRAMES,
        0 <= k < TOTAL_FRAMES,
    ensures
        cyclic(start, k) == if start + k < TOTAL_FRAMES { start + k } else { start + k - TOTAL_FRAMES },
{
    let t = TOTAL_FRAMES as int;
    if start + k < t {
        vstd::arithmetic::div_mod::lemma_small_mod((start + k) as nat, t as nat);
    } else {
        vstd::arithmetic::div_mod::lemma_fundamental_div_mod_converse(start + k, t, 1, start + k - t);
    }
}

/// A freed frame is handed out again: once every other frame is allocated,
/// the next allocation, wherever its scan starts, returns the frame just freed.
pub proof fn law_freed_frame_is_reused(used: Seq<bool>, idx: int, start: int)
    requires
        used.len() == TOTAL_FRAMES,
        0 <= idx < TOTAL_FRAMES,
        0 <= start <= TOTAL_FRAMES,
        forall|i: int| 0 <= i < TOTAL_FRAMES && i != idx ==> #[trigger] used[i],
    ensures
        next_free(after_free(used, frame_addr(idx)), start) == Some(idx),
{
    law_frame_addr_in_ram(idx);
    let u = after_free(used, frame_addr(idx));
    assert(u == used.update(idx, false));
    let k = lemma_cyclic_hits(start, idx);
    assert forall|k2: int| 0 <= k2 < k implies #[trigger] u[cyclic(start, k2)] by {
        lemma_cyclic_value(start, k2);
        lemma_cyclic_value(start, k);
    }
    assert(first_free_step(u, start, k));
    let c = choose|k1: int| #[trigger] first_free_step(u, start, k1);
    lemma_first_free_unique(u, start, c, k);
}

/// An allocated frame is page-aligned and lies in RAM.
pub proof fn law_frame_addr_in_ram(idx: int)
    requires
        0 <= idx < TOTAL_FRAMES,
    ensures
        RAM_START <= frame_addr(idx),
        frame_addr(idx) + PAGE_SIZE <= RAM_START + RAM_SIZE,
        frame_of_addr(frame_addr(idx)) == Some(idx),
{
    assert((idx * 4096) % 4096 == 0 && (idx * 4096) / 4096 == idx) by (nonlinear_arith)
        requires 0 <= idx;
    assert((frame_addr(idx)) % 4096 == 0) by {
        assert(frame_addr(idx) == idx * 4096 + 4096 * 0x40000);
        vstd::arithmetic::div_mod::lemma_mod_multiples_vanish(0x40000, idx * 4096, 4096);
    }
}

} // verus!
