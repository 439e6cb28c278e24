//! Guest memory: a flat, zero-initialised byte array of `MEMORY_SIZE` bytes,
//! stored as fixed-size pages that are allocated on their first write.
use vstd::prelude::*;
use crate::machine::MEMORY_SIZE;

verus! {

pub const PAGE_SIZE: usize = 0x1_0000;

/// Enough pages to cover `MEMORY_SIZE` bytes.
pub const PAGE_COUNT: usize = 0x1_0000;

pub struct Memory {
    pages: Vec<Vec<u8>>,
}

/// An address splits into a page number and an offset within the page, and
/// the split determines the address.
proof fn lemma_page_split(j: int, a: int)
    requires
        0 <= j,
        0 <= a,
    ensures
        j / PAGE_SIZE as int == a / PAGE_SIZE as int && j % PAGE_SIZE as int == a % PAGE_SIZE as int
            ==> j == a,
        j < MEMORY_SIZE ==> j / (PAGE_SIZE as int) < PAGE_COUNT,
{
}

impl Memory {
    /// Each page is either unallocated (empty, reading as zeros) or full size.
    pub closed spec fn wf(&self) -> bool {
        &&& self.pages@.len() == PAGE_COUNT
        &&& forall|p: int|
            0 <= p < PAGE_COUNT ==> (#[trigger] self.pages@[p]@.len() == 0 || self.pages@[p]@.len()
                == PAGE_SIZE)
    }

    pub closed spec fn byte(&self, a: int) -> u8 {
        let page = self.pages@[a / PAGE_SIZE as int]@;
        if page.len() == PAGE_SIZE {
            page[a % PAGE_SIZE as int]
        } else {
            0
        }
    }

    /// Memory filled with zeros.
    pub fn new() -> (r: Memory)
        ensures
            r.wf(),
            r@ == Seq::new(MEMORY_SIZE as nat, |i: int| 0u8),
    {
        let mut pages: Vec<Vec<u8>> = Vec::new();
        let mut i: usize = 0;
        while i < PAGE_COUNT
            invariant
                i <= PAGE_COUNT,
                pages@.len() == i,
                forall|p: int| 0 <= p < i ==> (#[trigger] pages@[p]@).len() == 0,
            decreases PAGE_COUNT - i,
        {
            pages.push(Vec::new());
            i = i + 1;
        }
        let r = Memory { pages };
        assert(r@ =~= Seq::new(MEMORY_SIZE as nat, |i: int| 0u8)) by {
            assert forall|j: int| 0 <= j < MEMORY_SIZE implies r.byte(j) == 0u8 by {
                lemma_page_split(j, j);
            }
        }
        r
    }

    /// The byte at `a`.
    pub fn read(&self, a: usize) -> (r: u8)
        requires
            self.wf(),
            a < MEMORY_SIZE,
        ensures
            r == self@[a as int],
    {
        proof {
            lemma_page_split(a as int, a as int);
        }
        let page = &self.pages[a / PAGE_SIZE];
        if page.len() == PAGE_SIZE {
            page[a % PAGE_SIZE]
        } else {
            0
        }
    }

    /// Writes `b` at `a`, allocating its page if needed.
    pub fn write(&mut self, a: usize, b: u8)
        requires
            old(self).wf(),
            a < MEMORY_SIZE,
        ensures
            final(self).wf(),
            final(self)@ == old(self)@.update(a as int, b),
    {
        proof {
            lemma_page_split(a as int, a as int);
        }
        let pi = a / PAGE_SIZE;
        let off = a % PAGE_SIZE;
        let mut page: Vec<u8> = Vec::new();
        self.pages.set_and_swap(pi, &mut page);
        if page.len() == 0 {
            page = vec![0u8; PAGE_SIZE];
        }
        let ghost filled = page@;
        page.set(off, b);
        self.pages.set_and_swap(pi, &mut page);
        proof {
            assert forall|p: int| 0 <= p < PAGE_COUNT implies (#[trigger] self.pages@[p]@.len() == 0
                || self.pages@[p]@.len() == PAGE_SIZE) by {
                if p != pi {
                    assert(self.pages@[p] == old(self).pages@[p]);
                }
            }
            assert forall|j: int| 0 <= j < MEMORY_SIZE implies #[trigger] self.byte(j) == old(
                self,
            )@.update(a as int, b)[j] by {
                lemma_page_split(j, a as int);
                if j / PAGE_SIZE as int == pi {
                    if old(self).pages@[pi as int]@.len() == 0 {
                        assert(filled[j % PAGE_SIZE as int] == 0);
                    }
                }
            }
            assert(self@ =~= old(self)@.update(a as int, b));
        }
    }
}

impl View for Memory {
    type V = Seq<u8>;

    closed spec fn view(&self) -> Seq<u8> {
        Seq::new(MEMORY_SIZE as nat, |a: int| self.byte(a))
    }
}

} // verus!
