//! Byte contents of the managed physical frames.
//!
//! The kernel reaches frame contents through address translation; here the
//! contents stand as plain data, one byte vector per frame, so that what
//! allocation does to a frame's bytes — the zero-fill on handout — can be
//! stated and proved.  Viewed as a map from page number to byte sequence.

use vstd::prelude::*;

use crate::addr::{PhysPageNum, PAGE_SIZE};

verus! {

/// The all-zero contents of one freshly issued frame.
pub open spec fn zero_page() -> Seq<u8> {
    Seq::new(PAGE_SIZE as nat, |i: int| 0u8)
}

/// Contents of the contiguous frame range `[base, base + frames.len())`.
pub struct PhysMemory {
    base: usize,
    frames: Vec<Vec<u8>>,
}

impl View for PhysMemory {
    type V = Map<usize, Seq<u8>>;

    /// The bytes of each managed frame, keyed by page number.
    closed spec fn view(&self) -> Map<usize, Seq<u8>> {
        Map::new(
            |p: usize| self.base <= p < self.base + self.frames@.len(),
            |p: usize| self.frames@[p - self.base]@,
        )
    }
}

impl PhysMemory {
    /// First managed page number.
    pub closed spec fn base_ppn(self) -> usize {
        self.base
    }

    /// Number of managed frames.
    pub closed spec fn frame_count(self) -> nat {
        self.frames@.len()
    }

    /// Every frame holds exactly one page of bytes and the range of page
    /// numbers fits the machine word.
    pub open spec fn wf(self) -> bool {
        &&& self.base_ppn() + self.frame_count() <= usize::MAX
        &&& forall|p: usize| self@.dom().contains(p) ==> (#[trigger] self@[p]).len() == PAGE_SIZE
    }

    /// Page number `p` lies in the managed range.
    pub open spec fn contains_ppn(self, p: usize) -> bool {
        self.base_ppn() <= p < self.base_ppn() + self.frame_count()
    }

    /// Memory for `count` frames starting at page `base`, all zeroed.
    pub fn new(base: usize, count: usize) -> (r: Self)
        requires
            base + count <= usize::MAX,
        ensures
            r.wf(),
            r.base_ppn() == base,
            r.frame_count() == count,
            forall|p: usize| r.contains_ppn(p) ==> r@[p] =~= zero_page(),
    {
        let mut frames: Vec<Vec<u8>> = Vec::new();
        while frames.len() < count
            invariant
                frames@.len() <= count,
                forall|i: int| 0 <= i < frames@.len() ==> frames@[i]@ =~= zero_page(),
            decreases count - frames.len(),
        {
            frames.push(Self::fresh_zero_frame());
        }
        let r = Self { base, frames };
        proof {
            assert(forall|p: usize| r.contains_ppn(p) ==> r@.dom().contains(p));
        }
        r
    }

    /// One page of zero bytes.
    fn fresh_zero_frame() -> (z: Vec<u8>)
        ensures
            z@ =~= zero_page(),
    {
        let mut z: Vec<u8> = Vec::new();
        while z.len() < PAGE_SIZE
            invariant
                z@.len() <= PAGE_SIZE,
                forall|i: int| 0 <= i < z@.len() ==> z@[i] == 0u8,
            decreases PAGE_SIZE - z.len(),
        {
            z.push(0u8);
        }
        z
    }

    /// Read one byte of frame `ppn`.
    pub fn read_byte(&self, ppn: PhysPageNum, offset: usize) -> (b: u8)
        requires
            self.wf(),
            self.contains_ppn(ppn.0),
            offset < PAGE_SIZE,
        ensures
            b == self@[ppn.0][offset as int],
    {
        proof {
            assert(self@.dom().contains(ppn.0));
            assert(self@[ppn.0] == self.frames@[ppn.0 - self.base]@);
        }
        self.frames[ppn.0 - self.base][offset]
    }

    /// Write one byte of frame `ppn`; every other byte and frame keeps its
    /// contents.
    pub fn write_byte(&mut self, ppn: PhysPageNum, offset: usize, value: u8)
        requires
            old(self).wf(),
            old(self).contains_ppn(ppn.0),
            offset < PAGE_SIZE,
        ensures
            final(self).wf(),
            final(self).base_ppn() == old(self).base_ppn(),
            final(self).frame_count() == old(self).frame_count(),
            final(self)@ == old(self)@.insert(
                ppn.0,
                old(self)@[ppn.0].update(offset as int, value),
            ),
    {
        let idx = ppn.0 - self.base;
        proof {
            assert(self@.dom().contains(ppn.0));
            assert(self@[ppn.0] == self.frames@[idx as int]@);
        }
        let frame: &mut Vec<u8> = &mut self.frames[idx];
        frame[offset] = value;
        proof {
            assert(self@ =~~= old(self)@.insert(
                ppn.0,
                old(self)@[ppn.0].update(offset as int, value),
            ));
        }
    }

    /// Zero-fill frame `ppn`; every other frame keeps its contents.
    pub fn clear_frame(&mut self, ppn: PhysPageNum)
        requires
            old(self).wf(),
            old(self).contains_ppn(ppn.0),
        ensures
            final(self).wf(),
            final(self).base_ppn() == old(self).base_ppn(),
            final(self).frame_count() == old(self).frame_count(),
            final(self)@ == old(self)@.insert(ppn.0, zero_page()),
    {
        let idx = ppn.0 - self.base;
        let z = Self::fresh_zero_frame();
        self.frames[idx] = z;
        proof {
            assert(self@ =~~= old(self)@.insert(ppn.0, zero_page()));
        }
    }
}

} // verus!
