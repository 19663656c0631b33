//! Physical RAM as 64-bit words, stored page by page; a page never written
//! reads as zeros.
use vstd::prelude::*;
use crate::frame_alloc::TOTAL_FRAMES;

verus! {

/// Number of 64-bit words of RAM.
pub const RAM_WORDS: usize = 16_777_216;

/// Word `w` of a page stored lazily: an empty page reads as zeros.
pub open spec fn page_word(p: Seq<u64>, w: int) -> u64 {
    if p.len() == 512 { p[w] } else { 0 }
}

/// RAM contents as 64-bit words; frames never written read as zero.
pub struct PhysMem {
    pages: Vec<Vec<u64>>,
}

impl PhysMem {
    pub closed spec fn wf(&self) -> bool {
        &&& self.pages@.len() == TOTAL_FRAMES
        &&& forall|f: int| 0 <= f < TOTAL_FRAMES ==> {
            let n = (#[trigger] self.pages@[f])@.len();
            n == 0 || n == 512
        }
    }

    pub closed spec fn view(&self) -> Seq<u64> {
        Seq::new(RAM_WORDS as nat, |i: int| page_word(self.pages@[i / 512]@, i % 512))
    }

    /// All of RAM reads as zero.
    pub fn new() -> (r: Self)
        ensures
            r.wf(),
            r.view() == Seq::new(RAM_WORDS as nat, |i: int| 0u64),
    {
        let mut pages: Vec<Vec<u64>> = Vec::new();
        let mut i: usize = 0;
        while i < TOTAL_FRAMES
            invariant
                i <= TOTAL_FRAMES,
                pages@.len() == i,
                forall|f: int| 0 <= f < i ==> (#[trigger] pages@[f])@.len() == 0,
            decreases TOTAL_FRAMES - i,
        {
            pages.push(Vec::new());
            i = i + 1;
        }
        let r = PhysMem { pages };
        assert(r.view() =~= Seq::new(RAM_WORDS as nat, |i: int| 0u64));
        r
    }

    pub fn read(&self, i: usize) -> (r: u64)
        requires
            self.wf(),
            i < RAM_WORDS,
        ensures
            r == self.view()[i as int],
    {
        let f = i / 512;
        let w = i % 512;
        if self.pages[f].len() == 0 {
            0
        } else {
            self.pages[f][w]
        }
    }

    pub fn write(&mut self, i: usize, v: u64)
        requires
            old(self).wf(),
            i < RAM_WORDS,
        ensures
            final(self).wf(),
            final(self).view() == old(self).view().update(i as int, v),
    {
        let f = i / 512;
        let w = i % 512;
        let ghost old_view = self.view();
        let mut page: Vec<u64> = Vec::new();
        std::mem::swap(&mut page, &mut self.pages[f]);
        if page.len() == 0 {
            let mut j: usize = 0;
            while j < 512
                invariant
                    j <= 512,
                    page@.len() == j,
                    forall|k: int| 0 <= k < j ==> page@[k] == 0,
                decreases 512 - j,
            {
                page.push(0);
                j = j + 1;
            }
        }
        page.set(w, v);
        self.pages.set(f, page);
        assert(self.view() =~= old_view.update(i as int, v));
    }

    /// Frame `f` reads as zero afterwards.
    pub fn zero_frame(&mut self, f: usize)
        requires
            old(self).wf(),
            f < TOTAL_FRAMES,
        ensures
            final(self).wf(),
            final(self).view() == zero_page(old(self).view(), f as int),
    {
        self.pages.set(f, Vec::new());
        assert(self.view() =~= zero_page(old(self).view(), f as int));
    }
}

/// `mem` with frame `f` cleared.
pub open spec fn zero_page(mem: Seq<u64>, f: int) -> Seq<u64> {
    Seq::new(mem.len(), |i: int| if i / 512 == f { 0u64 } else { mem[i] })
}

} // verus!
