//! Byte-level access to memory regions: reading where a region has bytes,
//! writing and filling it, with writes past its end doing nothing.
use vstd::prelude::*;
use crate::console::{Runtime, MEMORY_SIZE};
use crate::screen::ArrayScreen;

verus! {

/// A region of bytes that can be read.
pub trait Source {
    /// The bytes of the region.
    spec fn bytes(&self) -> Seq<u8>;

    /// The byte at `offset`, or `None` past the end of the region.
    fn item_at(&self, offset: usize) -> (r: Option<u8>)
        ensures
            r == if offset < self.bytes().len() {
                Some(self.bytes()[offset as int])
            } else {
                None::<u8>
            },
    ;
}

/// A region of bytes that can be written.
pub trait Sink: Source {
    /// Writes `item` at `offset`; nothing past the end of the region.
    fn set_item_at(&mut self, offset: usize, item: u8)
        ensures
            final(self).bytes() == if offset < old(self).bytes().len() {
                old(self).bytes().update(offset as int, item)
            } else {
                old(self).bytes()
            },
    ;

    /// Sets every byte of the region to `item`.
    fn fill(&mut self, item: u8)
        ensures
            final(self).bytes() == Seq::new(old(self).bytes().len(), |i: int| item),
    ;
}

impl Source for ArrayScreen {
    open spec fn bytes(&self) -> Seq<u8> {
        self.fb@
    }

    fn item_at(&self, offset: usize) -> (r: Option<u8>) {
        if offset < self.fb.len() {
            Some(self.fb[offset])
        } else {
            None
        }
    }
}

impl Sink for ArrayScreen {
    fn set_item_at(&mut self, offset: usize, item: u8) {
        if offset < self.fb.len() {
            self.fb.set(offset, item);
        }
    }

    fn fill(&mut self, item: u8) {
        let n = self.fb.len();
        let mut i: usize = 0;
        while i < n
            invariant
                n == self.fb@.len(),
                n == old(self).fb@.len(),
                i <= n,
                forall|k: int| 0 <= k < i ==> self.fb@[k] == item,
            decreases n - i,
        {
            self.fb.set(i, item);
            i += 1;
        }
        assert(self.fb@ =~= Seq::new(old(self).fb@.len(), |i: int| item));
    }
}

impl Source for Runtime {
    open spec fn bytes(&self) -> Seq<u8> {
        self.memory@
    }

    fn item_at(&self, offset: usize) -> (r: Option<u8>) {
        if offset < self.memory.len() {
            Some(self.memory[offset])
        } else {
            None
        }
    }
}

impl Sink for Runtime {
    fn set_item_at(&mut self, offset: usize, item: u8) {
        if offset < self.memory.len() {
            self.memory.set(offset, item);
        }
    }

    fn fill(&mut self, item: u8) {
        let n = self.memory.len();
        let mut i: usize = 0;
        while i < n
            invariant
                n == self.memory@.len(),
                n == old(self).memory@.len(),
                i <= n,
                forall|k: int| 0 <= k < i ==> self.memory@[k] == item,
            decreases n - i,
        {
            self.memory.set(i, item);
            i += 1;
        }
        assert(self.memory@ =~= Seq::new(old(self).memory@.len(), |i: int| item));
    }
}

impl Runtime {
    /// Sets the `n` bytes at `addr` to `item`, as far as memory reaches.
    pub fn fill_range(&mut self, addr: usize, n: usize, item: u8)
        requires
            old(self).wf(),
        ensures
            final(self).wf(),
            final(self).memory@ == Seq::new(
                MEMORY_SIZE as nat,
                |k: int| if addr <= k < addr + n { item } else { old(self).memory@[k] },
            ),
            final(self).save_cache == old(self).save_cache,
            final(self).needs_write == old(self).needs_write,
            final(self).tones == old(self).tones,
    {
        let end: usize = if addr > MEMORY_SIZE || MEMORY_SIZE - addr < n { MEMORY_SIZE } else { addr + n };
        let mut k: usize = if addr < MEMORY_SIZE { addr } else { MEMORY_SIZE };
        while k < end
            invariant
                self.wf(),
                end <= MEMORY_SIZE,
                end == if addr + n > MEMORY_SIZE { MEMORY_SIZE as int } else { addr + n },
                k >= addr || k == MEMORY_SIZE,
                k <= end,
                self.save_cache == old(self).save_cache,
                self.needs_write == old(self).needs_write,
                self.tones == old(self).tones,
                forall|j: int|
                    0 <= j < MEMORY_SIZE ==> #[trigger] self.memory@[j] == if addr <= j < k {
                        item
                    } else {
                        old(self).memory@[j]
                    },
            decreases end - k,
        {
            self.memory.set(k, item);
            k += 1;
        }
        assert(self.memory@ =~= Seq::new(
            MEMORY_SIZE as nat,
            |j: int| if addr <= j < addr + n { item } else { old(self).memory@[j] },
        ));
    }
}

} // verus!
