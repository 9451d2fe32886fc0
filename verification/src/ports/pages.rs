//! Contiguous memory, with a record of the requests.

use vstd::prelude::*;

verus! {

/// Contiguous memory for the shared buffer.
pub trait PageSource {
    /// Allocates pages and returns their physical and virtual address.
    fn alloc_contiguous_pages(&mut self, pages: usize) -> Option<(u64, usize)>;
}

/// A request for pages and the physical and virtual address that came back.
pub struct PageRequest {
    pub pages: nat,
    pub answer: Option<(u64, usize)>,
}

/// Contiguous memory, with a record of the requests.
pub struct PagePort<P: PageSource> {
    inner: P,
    log: Ghost<Seq<PageRequest>>,
}

impl<P: PageSource> PagePort<P> {
    /// All requests so far.
    pub closed spec fn log(&self) -> Seq<PageRequest> {
        self.log@
    }

    /// What is behind the record.
    pub closed spec fn behind(&self) -> P {
        self.inner
    }

    /// Gives back what is behind the record.
    pub fn into_inner(self) -> (r: P)
        ensures
            r == self.behind(),
    {
        self.inner
    }

    pub fn new(inner: P) -> (r: Self)
        ensures
            r.behind() == inner,
            r.log() == Seq::<PageRequest>::empty(),
    {
        PagePort { inner, log: Ghost(Seq::empty()) }
    }

    pub fn alloc_contiguous_pages(&mut self, pages: usize) -> (r: Option<(u64, usize)>)
        ensures
            final(self).log() == old(self).log().push(
                PageRequest { pages: pages as nat, answer: r },
            ),
    {
        let r = self.inner.alloc_contiguous_pages(pages);
        self.log = Ghost(self.log@.push(PageRequest { pages: pages as nat, answer: r }));
        r
    }
}

} // verus!
